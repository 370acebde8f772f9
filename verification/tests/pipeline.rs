use homeboy::error::Error;
use homeboy::pipeline::{
    blocked_by_dependency, classify, order_steps, plan, record_outcome, run, run_plan,
    skipped_result, to_plan_step, ConfigEntry, ConfigValue, PipelineCapabilityResolver,
    PipelinePlanStep, PipelineRunStatus, PipelineStep, PipelineStepExecutor, PipelineStepResult,
    PipelineStepStatus,
};

fn step(id: &str, step_type: &str, needs: &[&str]) -> PipelineStep {
    PipelineStep {
        id: id.to_string(),
        step_type: step_type.to_string(),
        label: None,
        needs: needs.iter().map(|n| n.to_string()).collect(),
        config: Vec::new(),
    }
}

struct Known(Vec<&'static str>);

impl PipelineCapabilityResolver for Known {
    fn is_supported(&self, step_type: &str) -> bool {
        self.0.contains(&step_type)
    }

    fn missing(&self, step_type: &str) -> Vec<String> {
        vec![format!("Missing action 'release.{}'", step_type)]
    }
}

struct Scripted {
    failing: Vec<&'static str>,
    erroring: Vec<&'static str>,
    seen: std::cell::RefCell<Vec<String>>,
}

impl Scripted {
    fn new(failing: Vec<&'static str>, erroring: Vec<&'static str>) -> Self {
        Scripted { failing, erroring, seen: std::cell::RefCell::new(Vec::new()) }
    }

    fn seen(&self) -> Vec<String> {
        self.seen.borrow().clone()
    }
}

impl PipelineStepExecutor for Scripted {
    fn execute_step(&self, step: &PipelineStep) -> Result<PipelineStepResult, Error> {
        self.seen.borrow_mut().push(step.id.clone());
        if self.erroring.contains(&step.id.as_str()) {
            return Err(Error::Other { message: format!("{} broke", step.id) });
        }
        let status = if self.failing.contains(&step.id.as_str()) {
            PipelineRunStatus::Failed
        } else {
            PipelineRunStatus::Success
        };
        Ok(PipelineStepResult {
            id: step.id.clone(),
            step_type: step.step_type.clone(),
            status,
            missing: Vec::new(),
            warnings: Vec::new(),
            hints: Vec::new(),
            data: Some("{}".to_string()),
            error: None,
        })
    }
}

fn ids(steps: &[PipelineStep]) -> Vec<&str> {
    steps.iter().map(|s| s.id.as_str()).collect()
}

fn statuses(report: &[PipelineStepResult]) -> Vec<PipelineRunStatus> {
    report.iter().map(|r| r.status).collect()
}

#[test]
fn steps_without_needs_keep_their_order() {
    let steps = vec![step("c", "build", &[]), step("a", "version", &[]), step("b", "git.tag", &[])];
    let (ordered, warnings) = order_steps(&steps, "release.steps").unwrap();
    assert_eq!(ids(&ordered), vec!["c", "a", "b"]);
    assert!(warnings.is_empty());
}

#[test]
fn empty_list_is_planned_as_it_stands() {
    let (ordered, warnings) = order_steps(&Vec::new(), "release.steps").unwrap();
    assert!(ordered.is_empty());
    assert!(warnings.is_empty());
}

#[test]
fn single_step_is_taken_without_looking_at_its_needs() {
    let steps = vec![step("only", "build", &["nowhere", "only"])];
    let (ordered, warnings) = order_steps(&steps, "release.steps").unwrap();
    assert_eq!(ids(&ordered), vec!["only"]);
    assert_eq!(ordered[0].needs, vec!["nowhere".to_string(), "only".to_string()]);
    assert!(warnings.is_empty());
}

#[test]
fn ordered_steps_keep_all_their_fields() {
    let mut first = step("a", "custom.notify", &[]);
    first.label = Some("Tell everyone".to_string());
    first.config = vec![
        ConfigEntry { key: "channel".to_string(), value: ConfigValue::Text("#ops".to_string()) },
        ConfigEntry { key: "loud".to_string(), value: ConfigValue::Bool(true) },
        ConfigEntry { key: "retries".to_string(), value: ConfigValue::Json("3".to_string()) },
    ];
    let steps = vec![step("b", "build", &["a"]), first];
    let (ordered, _) = order_steps(&steps, "release.steps").unwrap();
    assert_eq!(ids(&ordered), vec!["a", "b"]);
    assert_eq!(ordered[0].step_type, "custom.notify");
    assert_eq!(ordered[0].label.as_deref(), Some("Tell everyone"));
    assert_eq!(ordered[0].config.len(), 3);
    assert_eq!(ordered[0].config[0].key, "channel");
    assert!(matches!(&ordered[0].config[0].value, ConfigValue::Text(t) if t == "#ops"));
    assert!(matches!(&ordered[0].config[1].value, ConfigValue::Bool(true)));
    assert!(matches!(&ordered[0].config[2].value, ConfigValue::Json(t) if t == "3"));
    assert_eq!(ordered[1].needs, vec!["a".to_string()]);
}

#[test]
fn chain_is_planned_in_order_and_ready() {
    let steps = vec![
        step("a", "build", &[]),
        step("b", "version", &["a"]),
        step("c", "git.tag", &["b"]),
    ];
    let resolver = Known(vec!["build", "version", "git.tag"]);
    let planned = plan(&steps, &resolver, true, "release.steps").unwrap();
    let order: Vec<&str> = planned.steps.iter().map(|s| s.id.as_str()).collect();
    assert_eq!(order, vec!["a", "b", "c"]);
    assert!(planned.steps.iter().all(|s| s.status == PipelineStepStatus::Ready));
    assert!(planned.steps.iter().all(|s| s.missing.is_empty()));
    assert_eq!(planned.warnings, vec!["Steps reordered based on dependencies".to_string()]);
}

#[test]
fn dependencies_come_first_whatever_the_list_says() {
    let steps = vec![
        step("push", "git.push", &["tag"]),
        step("tag", "git.tag", &["version"]),
        step("version", "version", &["build"]),
        step("build", "build", &[]),
    ];
    let (ordered, warnings) = order_steps(&steps, "release.steps").unwrap();
    assert_eq!(ids(&ordered), vec!["build", "version", "tag", "push"]);
    assert_eq!(warnings, vec!["Steps reordered based on dependencies".to_string()]);
}

#[test]
fn steps_that_become_ready_together_keep_the_order_of_the_list() {
    let steps = vec![
        step("z", "build", &["root"]),
        step("root", "build", &[]),
        step("a", "build", &["root"]),
        step("free", "build", &[]),
        step("last", "build", &["a", "z"]),
    ];
    let (ordered, _) = order_steps(&steps, "release.steps").unwrap();
    assert_eq!(ids(&ordered), vec!["root", "free", "z", "a", "last"]);
}

#[test]
fn a_dependency_named_twice_counts_twice() {
    let steps = vec![step("b", "build", &["a", "a"]), step("a", "build", &[])];
    let (ordered, _) = order_steps(&steps, "release.steps").unwrap();
    assert_eq!(ids(&ordered), vec!["a", "b"]);
}

#[test]
fn two_steps_in_a_circle_are_refused() {
    let steps = vec![step("a", "build", &["b"]), step("b", "build", &["a"])];
    match order_steps(&steps, "release.steps") {
        Err(Error::DependencyCycle { field, pending }) => {
            assert_eq!(field, "release.steps");
            assert_eq!(pending, vec!["a".to_string(), "b".to_string()]);
        }
        other => panic!("expected a cycle, got {:?}", other),
    }
}

#[test]
fn a_circle_holds_back_what_depends_on_it_and_nothing_else() {
    let steps = vec![
        step("free", "build", &[]),
        step("after", "build", &["b"]),
        step("a", "build", &["b"]),
        step("b", "build", &["a"]),
        step("own", "build", &["own", "free"]),
    ];
    match order_steps(&steps, "steps") {
        Err(Error::DependencyCycle { pending, .. }) => {
            assert_eq!(
                pending,
                vec!["after".to_string(), "a".to_string(), "b".to_string(), "own".to_string()]
            );
        }
        other => panic!("expected a cycle, got {:?}", other),
    }
}

#[test]
fn cycle_message_is_the_known_sentence() {
    let steps = vec![step("a", "build", &["b"]), step("b", "build", &["a"])];
    let e = order_steps(&steps, "release.steps").unwrap_err();
    assert_eq!(e.message(), "Steps contain a cycle");
}

#[test]
fn duplicate_id_is_refused_before_anything_else() {
    let steps = vec![
        step("a", "build", &["nowhere"]),
        step("b", "build", &["a"]),
        step("a", "version", &["b"]),
    ];
    match order_steps(&steps, "release.steps") {
        Err(e) => {
            assert_eq!(e.message(), "Duplicate step id 'a'");
            match e {
                Error::DuplicateStepId { field, id } => {
                    assert_eq!(field, "release.steps");
                    assert_eq!(id, "a");
                }
                other => panic!("expected a duplicate id, got {:?}", other),
            }
        }
        Ok(_) => panic!("expected a duplicate id"),
    }
}

#[test]
fn first_repeated_id_is_the_one_reported() {
    let steps = vec![
        step("a", "build", &[]),
        step("b", "build", &[]),
        step("b", "build", &[]),
        step("a", "build", &[]),
    ];
    match order_steps(&steps, "f") {
        Err(Error::DuplicateStepId { id, .. }) => assert_eq!(id, "b"),
        other => panic!("expected a duplicate id, got {:?}", other),
    }
}

#[test]
fn unknown_dependency_is_refused_with_step_and_need() {
    let steps = vec![step("a", "build", &[]), step("b", "version", &["a", "ghost", "spirit"])];
    match order_steps(&steps, "release.steps") {
        Err(e) => {
            assert_eq!(e.message(), "Step 'b' depends on unknown step 'ghost'");
            match e {
                Error::UnknownDependency { field, step_id, need } => {
                    assert_eq!(field, "release.steps");
                    assert_eq!(step_id, "b");
                    assert_eq!(need, "ghost");
                }
                other => panic!("expected an unknown dependency, got {:?}", other),
            }
        }
        Ok(_) => panic!("expected an unknown dependency"),
    }
}

#[test]
fn unknown_dependency_wins_over_a_circle() {
    let steps = vec![step("a", "build", &["b"]), step("b", "build", &["a", "c"])];
    assert!(matches!(order_steps(&steps, "f"), Err(Error::UnknownDependency { .. })));
}

#[test]
fn unsupported_type_is_missing_its_action() {
    let steps = vec![step("x", "custom.notify", &[])];
    let resolver = Known(vec!["build"]);
    let planned = plan(&steps, &resolver, true, "release.steps").unwrap();
    assert_eq!(planned.steps.len(), 1);
    assert_eq!(planned.steps[0].status, PipelineStepStatus::Missing);
    assert_eq!(
        planned.steps[0].missing,
        vec!["Missing action 'release.custom.notify'".to_string()]
    );
    let executor = Scripted::new(vec![], vec![]);
    let report = run(&steps, &executor, &resolver, true, "release.steps").unwrap();
    assert_eq!(statuses(&report.steps), vec![PipelineRunStatus::Skipped]);
    assert_eq!(
        report.steps[0].missing,
        vec!["Missing action 'release.custom.notify'".to_string()]
    );
    assert_eq!(report.overall, PipelineRunStatus::Success);
    assert!(executor.seen().is_empty());
}

#[test]
fn switched_off_pipeline_disables_every_step() {
    let steps = vec![step("a", "build", &[]), step("b", "custom.notify", &["a"])];
    let resolver = Known(vec!["build"]);
    let planned = plan(&steps, &resolver, false, "release.steps").unwrap();
    assert!(planned.steps.iter().all(|s| s.status == PipelineStepStatus::Disabled));
    assert!(planned.steps.iter().all(|s| s.missing.is_empty()));
    let executor = Scripted::new(vec![], vec![]);
    let report = run(&steps, &executor, &resolver, false, "release.steps").unwrap();
    assert_eq!(
        statuses(&report.steps),
        vec![PipelineRunStatus::Skipped, PipelineRunStatus::Skipped]
    );
    assert_eq!(report.overall, PipelineRunStatus::Success);
    assert!(executor.seen().is_empty());
}

#[test]
fn planning_twice_gives_the_same_plan() {
    let steps = vec![
        step("c", "git.tag", &["b"]),
        step("a", "build", &[]),
        step("b", "custom.notify", &["a"]),
    ];
    let resolver = Known(vec!["build", "git.tag"]);
    let first = plan(&steps, &resolver, true, "release.steps").unwrap();
    let second = plan(&steps, &resolver, true, "release.steps").unwrap();
    assert_eq!(format!("{:?}", first), format!("{:?}", second));
}

#[test]
fn failed_build_skips_the_version_step() {
    let steps = vec![step("build", "build", &[]), step("version", "version", &["build"])];
    let resolver = Known(vec!["build", "version"]);
    let executor = Scripted::new(vec!["build"], vec![]);
    let report = run(&steps, &executor, &resolver, true, "release.steps").unwrap();
    assert_eq!(report.steps.len(), 2);
    assert_eq!(report.steps[0].status, PipelineRunStatus::Failed);
    assert_eq!(report.steps[1].status, PipelineRunStatus::Skipped);
    assert_eq!(report.steps[1].id, "version");
    assert_eq!(report.steps[1].step_type, "version");
    assert!(report.steps[1].error.is_none());
    assert!(report.steps[1].data.is_none());
    assert_eq!(report.overall, PipelineRunStatus::Failed);
    assert_eq!(executor.seen(), vec!["build".to_string()]);
}

#[test]
fn skipping_passes_down_the_chain_but_spares_the_rest() {
    let steps = vec![
        step("a", "build", &[]),
        step("b", "build", &["a"]),
        step("c", "build", &["b"]),
        step("d", "build", &[]),
    ];
    let resolver = Known(vec!["build"]);
    let executor = Scripted::new(vec!["a"], vec![]);
    let report = run(&steps, &executor, &resolver, true, "release.steps").unwrap();
    let order: Vec<&str> = report.steps.iter().map(|r| r.id.as_str()).collect();
    assert_eq!(order, vec!["a", "d", "b", "c"]);
    assert_eq!(
        statuses(&report.steps),
        vec![
            PipelineRunStatus::Failed,
            PipelineRunStatus::Success,
            PipelineRunStatus::Skipped,
            PipelineRunStatus::Skipped
        ]
    );
    assert_eq!(report.overall, PipelineRunStatus::Failed);
    assert_eq!(executor.seen(), vec!["a".to_string(), "d".to_string()]);
}

#[test]
fn executor_error_becomes_a_failed_report_and_the_run_goes_on() {
    let steps = vec![step("a", "build", &[]), step("b", "build", &[])];
    let resolver = Known(vec!["build"]);
    let executor = Scripted::new(vec![], vec!["a"]);
    let report = run(&steps, &executor, &resolver, true, "release.steps").unwrap();
    assert_eq!(
        statuses(&report.steps),
        vec![PipelineRunStatus::Failed, PipelineRunStatus::Success]
    );
    assert_eq!(report.steps[0].id, "a");
    assert_eq!(report.steps[0].error.as_deref(), Some("a broke"));
    assert!(report.steps[0].data.is_none());
    assert_eq!(report.steps[1].data.as_deref(), Some("{}"));
    assert_eq!(report.overall, PipelineRunStatus::Failed);
    assert_eq!(executor.seen(), vec!["a".to_string(), "b".to_string()]);
}

#[test]
fn run_without_failure_succeeds_as_a_whole() {
    let steps = vec![step("a", "build", &[]), step("b", "version", &["a"])];
    let resolver = Known(vec!["build", "version"]);
    let executor = Scripted::new(vec![], vec![]);
    let report = run(&steps, &executor, &resolver, true, "release.steps").unwrap();
    assert_eq!(
        statuses(&report.steps),
        vec![PipelineRunStatus::Success, PipelineRunStatus::Success]
    );
    assert_eq!(report.overall, PipelineRunStatus::Success);
}

#[test]
fn run_of_a_list_that_cannot_be_ordered_fails_before_any_step() {
    let steps = vec![step("a", "build", &["b"]), step("b", "build", &["a"])];
    let resolver = Known(vec!["build"]);
    let executor = Scripted::new(vec![], vec![]);
    assert!(matches!(
        run(&steps, &executor, &resolver, true, "release.steps"),
        Err(Error::DependencyCycle { .. })
    ));
    assert!(executor.seen().is_empty());
}

#[test]
fn a_missing_dependency_blocks_the_step_that_names_it() {
    let steps = vec![step("notify", "custom.notify", &[]), step("tag", "git.tag", &["notify"])];
    let resolver = Known(vec!["git.tag"]);
    let executor = Scripted::new(vec![], vec![]);
    let report = run(&steps, &executor, &resolver, true, "release.steps").unwrap();
    assert_eq!(
        statuses(&report.steps),
        vec![PipelineRunStatus::Skipped, PipelineRunStatus::Skipped]
    );
    assert!(report.steps[1].missing.is_empty());
    assert!(executor.seen().is_empty());
}

fn plan_step(id: &str, needs: &[&str], status: PipelineStepStatus) -> PipelinePlanStep {
    PipelinePlanStep {
        id: id.to_string(),
        step_type: "build".to_string(),
        label: None,
        needs: needs.iter().map(|n| n.to_string()).collect(),
        config: Vec::new(),
        status,
        missing: Vec::new(),
    }
}

fn report(id: &str, status: PipelineRunStatus) -> PipelineStepResult {
    PipelineStepResult {
        id: id.to_string(),
        step_type: "build".to_string(),
        status,
        missing: Vec::new(),
        warnings: Vec::new(),
        hints: Vec::new(),
        data: None,
        error: None,
    }
}

#[test]
fn only_earlier_reports_that_are_no_success_block() {
    let plan = vec![
        plan_step("a", &[], PipelineStepStatus::Ready),
        plan_step("b", &[], PipelineStepStatus::Ready),
        plan_step("c", &["a", "b"], PipelineStepStatus::Ready),
        plan_step("d", &["a"], PipelineStepStatus::Ready),
        plan_step("e", &["zzz"], PipelineStepStatus::Ready),
    ];
    let results = vec![
        report("a", PipelineRunStatus::Success),
        report("b", PipelineRunStatus::Skipped),
        report("c", PipelineRunStatus::Skipped),
        report("d", PipelineRunStatus::Success),
    ];
    assert!(!blocked_by_dependency(&plan, &results, 0));
    assert!(blocked_by_dependency(&plan, &results, 2));
    assert!(!blocked_by_dependency(&plan, &results, 3));
    assert!(!blocked_by_dependency(&plan, &results, 4));
}

#[test]
fn run_plan_takes_the_plan_as_it_is_given() {
    let plan = vec![
        plan_step("a", &[], PipelineStepStatus::Disabled),
        plan_step("b", &["a"], PipelineStepStatus::Ready),
        plan_step("c", &[], PipelineStepStatus::Ready),
    ];
    let executor = Scripted::new(vec![], vec![]);
    let result = run_plan(&plan, &executor);
    assert_eq!(
        statuses(&result.steps),
        vec![PipelineRunStatus::Skipped, PipelineRunStatus::Skipped, PipelineRunStatus::Success]
    );
    assert_eq!(result.overall, PipelineRunStatus::Success);
    assert_eq!(executor.seen(), vec!["c".to_string()]);
}

#[test]
fn skipped_result_carries_what_is_missing() {
    let mut planned = plan_step("x", &[], PipelineStepStatus::Missing);
    planned.missing = vec!["Missing action 'release.x'".to_string()];
    let skipped = skipped_result(&planned);
    assert_eq!(skipped.id, "x");
    assert_eq!(skipped.status, PipelineRunStatus::Skipped);
    assert_eq!(skipped.missing, vec!["Missing action 'release.x'".to_string()]);
    assert!(skipped.warnings.is_empty() && skipped.hints.is_empty());
    assert!(skipped.data.is_none() && skipped.error.is_none());
}

#[test]
fn record_outcome_keeps_a_report_and_turns_an_error_into_a_failure() {
    let planned = plan_step("x", &[], PipelineStepStatus::Ready);
    let mut given = report("other", PipelineRunStatus::Success);
    given.data = Some("[1]".to_string());
    let kept = record_outcome(&planned, Ok(given));
    assert_eq!(kept.id, "other");
    assert_eq!(kept.data.as_deref(), Some("[1]"));
    let failed = record_outcome(
        &planned,
        Err(Error::NoMatchingModule { action_id: "release.x".to_string() }),
    );
    assert_eq!(failed.id, "x");
    assert_eq!(failed.step_type, "build");
    assert_eq!(failed.status, PipelineRunStatus::Failed);
    assert_eq!(failed.error.as_deref(), Some("Missing module action 'release.x'"));
}

#[test]
fn classify_goes_by_what_the_resolver_said() {
    let missing = vec!["nothing does this".to_string()];
    let off = classify(step("a", "t", &[]), false, true, missing.clone());
    assert_eq!(off.status, PipelineStepStatus::Disabled);
    assert!(off.missing.is_empty());
    let ready = classify(step("a", "t", &[]), true, true, missing.clone());
    assert_eq!(ready.status, PipelineStepStatus::Ready);
    assert!(ready.missing.is_empty());
    let lacking = classify(step("a", "t", &["n"]), true, false, missing.clone());
    assert_eq!(lacking.status, PipelineStepStatus::Missing);
    assert_eq!(lacking.missing, missing);
    assert_eq!(lacking.id, "a");
    assert_eq!(lacking.step_type, "t");
    assert_eq!(lacking.needs, vec!["n".to_string()]);
}

#[test]
fn to_plan_step_asks_the_resolver() {
    let resolver = Known(vec!["build"]);
    assert_eq!(to_plan_step(step("a", "build", &[]), &resolver, true).status, PipelineStepStatus::Ready);
    let other = to_plan_step(step("a", "else", &[]), &resolver, true);
    assert_eq!(other.status, PipelineStepStatus::Missing);
    assert_eq!(other.missing, vec!["Missing action 'release.else'".to_string()]);
    assert_eq!(to_plan_step(step("a", "build", &[]), &resolver, false).status, PipelineStepStatus::Disabled);
}
