use homeboy::error::Error;
use homeboy::pipeline::{
    ConfigEntry, ConfigValue, PipelineCapabilityResolver, PipelineRunStatus, PipelineStep,
    PipelineStepExecutor, PipelineStepResult,
};
use homeboy::release::{
    build_plan_hints, get_bool, get_text, is_core_step, payload, plan, resolve_component_release,
    resolve_module_action, resolve_modules, run, ActionConfig, Component, ModuleManifest,
    ReleaseAction, ReleaseCapabilityResolver, ReleaseConfig, ReleasePlanStatus, ReleasePlanStep,
    ReleaseStep, ReleaseStepExecutor,
};

fn module(id: &str, actions: &[&str]) -> ModuleManifest {
    ModuleManifest {
        id: id.to_string(),
        actions: actions.iter().map(|a| ActionConfig { id: a.to_string() }).collect(),
    }
}

fn release_step(id: &str, step_type: &str, needs: &[&str]) -> ReleaseStep {
    ReleaseStep {
        id: id.to_string(),
        step_type: step_type.to_string(),
        label: None,
        needs: needs.iter().map(|n| n.to_string()).collect(),
        config: Vec::new(),
    }
}

fn pipeline_step(id: &str, step_type: &str, config: Vec<ConfigEntry>) -> PipelineStep {
    PipelineStep {
        id: id.to_string(),
        step_type: step_type.to_string(),
        label: None,
        needs: Vec::new(),
        config,
    }
}

fn entry(key: &str, value: ConfigValue) -> ConfigEntry {
    ConfigEntry { key: key.to_string(), value }
}

fn text(s: &str) -> ConfigValue {
    ConfigValue::Text(s.to_string())
}

fn component(steps: Vec<ReleaseStep>, modules: Option<Vec<&str>>) -> Component {
    Component {
        id: "shop".to_string(),
        release: Some(ReleaseConfig { enabled: None, steps, settings: Vec::new() }),
        modules: modules.map(|m| m.iter().map(|s| s.to_string()).collect()),
    }
}

/// Carries steps out as the release executor decides, with a build that ends as scripted.
struct Acting {
    decisions: ReleaseStepExecutor,
    build_exit_code: i32,
    asked: std::cell::RefCell<Vec<String>>,
}

impl Acting {
    fn new(modules: Vec<ModuleManifest>, build_exit_code: i32) -> Self {
        Acting {
            decisions: ReleaseStepExecutor::new("shop".to_string(), modules),
            build_exit_code,
            asked: std::cell::RefCell::new(Vec::new()),
        }
    }
}

impl PipelineStepExecutor for Acting {
    fn execute_step(&self, step: &PipelineStep) -> Result<PipelineStepResult, Error> {
        let action = self.decisions.execute_step(step)?;
        self.asked.borrow_mut().push(format!("{:?}", action));
        Ok(match action {
            ReleaseAction::Build => self.decisions.run_build(
                step,
                "{\"output\":\"built\"}".to_string(),
                self.build_exit_code,
            ),
            _ => self.decisions.run_succeeded(step, "{}".to_string()),
        })
    }
}

#[test]
fn core_steps_are_the_six_known_types() {
    for known in ["build", "changelog", "version", "git.tag", "git.push", "changes"] {
        assert!(is_core_step(known), "{}", known);
    }
    for other in ["", "Build", "git", "git.tag ", "custom.notify", "release.build"] {
        assert!(!is_core_step(other), "{}", other);
    }
}

#[test]
fn resolver_supports_core_steps_and_offered_actions() {
    let resolver = ReleaseCapabilityResolver::new(vec![
        module("wordpress", &["release.custom.notify", "deploy"]),
        module("empty", &[]),
    ]);
    assert!(resolver.is_supported("build"));
    assert!(resolver.is_supported("custom.notify"));
    assert!(resolver.supports_module_action("custom.notify"));
    assert!(!resolver.supports_module_action("build"));
    assert!(!resolver.is_supported("deploy"));
    assert!(!resolver.is_supported("custom"));
    assert_eq!(
        resolver.missing("custom.notify"),
        vec!["Missing action 'release.custom.notify'".to_string()]
    );
}

#[test]
fn one_module_is_resolved_none_and_several_are_refused() {
    let modules = vec![
        module("a", &["release.x", "release.y"]),
        module("b", &["release.y"]),
        module("c", &["release.y", "other"]),
    ];
    assert_eq!(resolve_module_action(&modules, "release.x").unwrap().id, "a");
    match resolve_module_action(&modules, "release.z") {
        Err(e) => {
            assert_eq!(e.message(), "Missing module action 'release.z'");
            assert!(matches!(e, Error::NoMatchingModule { action_id } if action_id == "release.z"));
        }
        Ok(_) => panic!("expected no module"),
    }
    match resolve_module_action(&modules, "release.y") {
        Err(e) => {
            assert_eq!(e.message(), "Multiple modules provide action 'release.y' (a, b, c)");
            match e {
                Error::AmbiguousModule { action_id, modules } => {
                    assert_eq!(action_id, "release.y");
                    assert_eq!(modules, vec!["a".to_string(), "b".to_string(), "c".to_string()]);
                }
                other => panic!("expected ambiguity, got {:?}", other),
            }
        }
        Ok(_) => panic!("expected ambiguity"),
    }
}

#[test]
fn config_is_read_by_key_and_kind() {
    let config = vec![
        entry("tags", ConfigValue::Bool(true)),
        entry("name", text("v1")),
        entry("tags", ConfigValue::Bool(false)),
        entry("count", ConfigValue::Json("3".to_string())),
    ];
    assert_eq!(get_bool(&config, "tags"), Some(true));
    assert_eq!(get_bool(&config, "name"), None);
    assert_eq!(get_bool(&config, "absent"), None);
    assert_eq!(get_text(&config, "name"), Some("v1".to_string()));
    assert_eq!(get_text(&config, "tags"), None);
    assert_eq!(get_text(&config, "count"), None);
}

#[test]
fn payload_is_the_config_as_a_json_object() {
    assert_eq!(payload(&Vec::new()).unwrap(), None);
    let config = vec![
        entry("channel", text("say \"hi\"\n")),
        entry("loud", ConfigValue::Bool(true)),
        entry("quiet", ConfigValue::Bool(false)),
        entry("retries", ConfigValue::Json("[1,2.5,null]".to_string())),
        entry("k\\ey", text("")),
    ];
    assert_eq!(
        payload(&config).unwrap().unwrap(),
        "{\"channel\":\"say \\\"hi\\\"\\n\",\"loud\":true,\"quiet\":false,\"retries\":[1,2.5,null],\"k\\\\ey\":\"\"}"
    );
    let parsed: serde_json::Value =
        serde_json::from_str(&payload(&config).unwrap().unwrap()).unwrap();
    assert_eq!(parsed["channel"], serde_json::Value::String("say \"hi\"\n".to_string()));
    assert_eq!(parsed["retries"][1], serde_json::Value::from(2.5));
}

#[test]
fn build_step_asks_for_a_build() {
    let executor = ReleaseStepExecutor::new("shop".to_string(), Vec::new());
    let action = executor.execute_step(&pipeline_step("b", "build", Vec::new())).unwrap();
    assert!(matches!(action, ReleaseAction::Build));
}

#[test]
fn changes_step_leaves_the_diff_out_unless_asked() {
    let executor = ReleaseStepExecutor::new("shop".to_string(), Vec::new());
    let plain = executor.execute_step(&pipeline_step("c", "changes", Vec::new())).unwrap();
    assert!(matches!(plain, ReleaseAction::Changes { include_diff: false }));
    let with = executor
        .execute_step(&pipeline_step(
            "c",
            "changes",
            vec![entry("includeDiff", ConfigValue::Bool(true))],
        ))
        .unwrap();
    assert!(matches!(with, ReleaseAction::Changes { include_diff: true }));
    let wrong_kind = executor
        .execute_step(&pipeline_step("c", "changes", vec![entry("includeDiff", text("true"))]))
        .unwrap();
    assert!(matches!(wrong_kind, ReleaseAction::Changes { include_diff: false }));
}

#[test]
fn version_step_bumps_the_patch_unless_told() {
    let executor = ReleaseStepExecutor::new("shop".to_string(), Vec::new());
    let plain = executor.execute_step(&pipeline_step("v", "version", Vec::new())).unwrap();
    assert!(matches!(plain, ReleaseAction::Version { bump } if bump == "patch"));
    let minor = executor
        .execute_step(&pipeline_step("v", "version", vec![entry("bump", text("minor"))]))
        .unwrap();
    assert!(matches!(minor, ReleaseAction::Version { bump } if bump == "minor"));
}

#[test]
fn tag_step_takes_name_then_version_tag_then_nothing() {
    let executor = ReleaseStepExecutor::new("shop".to_string(), Vec::new());
    let both = executor
        .execute_step(&pipeline_step(
            "t",
            "git.tag",
            vec![
                entry("versionTag", text("v2")),
                entry("name", text("v1")),
                entry("message", text("Release")),
            ],
        ))
        .unwrap();
    assert!(matches!(
        both,
        ReleaseAction::GitTag { name: Some(n), message: Some(m) } if n == "v1" && m == "Release"
    ));
    let fallback = executor
        .execute_step(&pipeline_step("t", "git.tag", vec![entry("versionTag", text("v2"))]))
        .unwrap();
    assert!(matches!(fallback, ReleaseAction::GitTag { name: Some(n), message: None } if n == "v2"));
    let none = executor.execute_step(&pipeline_step("t", "git.tag", Vec::new())).unwrap();
    assert!(matches!(none, ReleaseAction::GitTag { name: None, message: None }));
}

#[test]
fn push_step_pushes_tags_only_where_asked() {
    let executor = ReleaseStepExecutor::new("shop".to_string(), Vec::new());
    let plain = executor.execute_step(&pipeline_step("p", "git.push", Vec::new())).unwrap();
    assert!(matches!(plain, ReleaseAction::GitPush { tags: false }));
    let tags = executor
        .execute_step(&pipeline_step("p", "git.push", vec![entry("tags", ConfigValue::Bool(true))]))
        .unwrap();
    assert!(matches!(tags, ReleaseAction::GitPush { tags: true }));
}

#[test]
fn changelog_step_has_no_handler() {
    let executor = ReleaseStepExecutor::new("shop".to_string(), Vec::new());
    match executor.execute_step(&pipeline_step("c", "changelog", Vec::new())) {
        Err(e) => {
            assert_eq!(e.message(), "Unsupported core step 'changelog'");
            assert!(matches!(e, Error::UnsupportedCoreStep { step_type } if step_type == "changelog"));
        }
        Ok(a) => panic!("expected a refusal, got {:?}", a),
    }
}

#[test]
fn other_step_goes_to_the_one_module_that_offers_it() {
    let executor = ReleaseStepExecutor::new(
        "shop".to_string(),
        vec![module("slack", &["release.custom.notify"]), module("other", &["release.x"])],
    );
    let bare = executor.execute_step(&pipeline_step("n", "custom.notify", Vec::new())).unwrap();
    assert!(matches!(
        bare,
        ReleaseAction::ModuleAction { module_id, action_id, payload: None }
            if module_id == "slack" && action_id == "release.custom.notify"
    ));
    let with = executor
        .execute_step(&pipeline_step("n", "custom.notify", vec![entry("to", text("ops"))]))
        .unwrap();
    assert!(matches!(
        with,
        ReleaseAction::ModuleAction { payload: Some(p), .. } if p == "{\"to\":\"ops\"}"
    ));
    assert!(matches!(
        executor.execute_step(&pipeline_step("n", "custom.absent", Vec::new())),
        Err(Error::NoMatchingModule { action_id }) if action_id == "release.custom.absent"
    ));
}

#[test]
fn build_report_goes_by_the_exit_code() {
    let executor = ReleaseStepExecutor::new("shop".to_string(), Vec::new());
    let step = pipeline_step("b", "build", Vec::new());
    let good = executor.run_build(&step, "{\"ok\":1}".to_string(), 0);
    assert_eq!(good.status, PipelineRunStatus::Success);
    assert_eq!(good.id, "b");
    assert_eq!(good.step_type, "build");
    assert_eq!(good.data.as_deref(), Some("{\"ok\":1}"));
    assert!(good.error.is_none() && good.missing.is_empty() && good.hints.is_empty());
    assert_eq!(executor.run_build(&step, "{}".to_string(), 2).status, PipelineRunStatus::Failed);
    assert_eq!(executor.run_build(&step, "{}".to_string(), -1).status, PipelineRunStatus::Failed);
    let done = executor.run_succeeded(&step, "[]".to_string());
    assert_eq!(done.status, PipelineRunStatus::Success);
    assert_eq!(done.data.as_deref(), Some("[]"));
    let custom = executor.step_result(
        &step,
        PipelineRunStatus::Failed,
        None,
        Some("boom".to_string()),
        vec!["try again".to_string()],
    );
    assert_eq!(custom.error.as_deref(), Some("boom"));
    assert_eq!(custom.hints, vec!["try again".to_string()]);
    assert!(custom.data.is_none());
}

#[test]
fn modules_are_loaded_in_the_order_of_their_ids() {
    let installed = vec![module("zeta", &[]), module("alpha", &["release.x"]), module("mid", &[])];
    let c = component(Vec::new(), Some(vec!["zeta", "alpha"]));
    let modules = resolve_modules(&c, None, &installed).unwrap();
    let ids: Vec<&str> = modules.iter().map(|m| m.id.as_str()).collect();
    assert_eq!(ids, vec!["alpha", "zeta"]);
    assert_eq!(modules[0].actions.len(), 1);
    assert!(resolve_modules(&component(Vec::new(), None), None, &installed).unwrap().is_empty());
}

#[test]
fn naming_a_module_is_refused() {
    let c = component(Vec::new(), None);
    match resolve_modules(&c, Some("wordpress"), &Vec::new()) {
        Err(e) => {
            assert_eq!(
                e.message(),
                "Module selection is configured via component.modules; --module is not supported"
            );
            assert!(matches!(e, Error::ModuleSelectionUnsupported));
        }
        Ok(_) => panic!("expected a refusal"),
    }
}

#[test]
fn module_that_is_not_installed_is_reported_with_near_ids() {
    let installed = vec![
        module("wordpress", &[]),
        module("wordpres", &[]),
        module("github", &[]),
        module("WordPress", &[]),
    ];
    let c = component(Vec::new(), Some(vec!["wordpess", "github"]));
    match resolve_modules(&c, None, &installed) {
        Err(e) => {
            assert_eq!(e.message(), "Module 'wordpess' not found");
            match e {
                Error::ModuleNotFound { id, suggestions } => {
                    assert_eq!(id, "wordpess");
                    assert_eq!(
                        suggestions,
                        vec![
                            "wordpress".to_string(),
                            "WordPress".to_string(),
                            "wordpres".to_string()
                        ]
                    );
                }
                other => panic!("expected a missing module, got {:?}", other),
            }
        }
        Ok(_) => panic!("expected a missing module"),
    }
}

#[test]
fn release_of_a_component_is_handed_out_as_a_copy() {
    let c = component(vec![release_step("a", "build", &[])], None);
    let release = resolve_component_release(&c).unwrap();
    assert_eq!(release.steps.len(), 1);
    assert_eq!(release.steps[0].id, "a");
    let bare = Component { id: "x".to_string(), release: None, modules: None };
    assert!(resolve_component_release(&bare).is_none());
}

#[test]
fn plan_of_a_chain_is_ready_and_without_hints() {
    let c = component(
        vec![
            release_step("a", "build", &[]),
            release_step("b", "version", &["a"]),
            release_step("c", "git.tag", &["b"]),
        ],
        None,
    );
    let planned = plan(&c, None, &Vec::new()).unwrap();
    assert_eq!(planned.component_id, "shop");
    assert!(planned.enabled);
    let order: Vec<&str> = planned.steps.iter().map(|s| s.id.as_str()).collect();
    assert_eq!(order, vec!["a", "b", "c"]);
    assert!(planned.steps.iter().all(|s| s.status == ReleasePlanStatus::Ready));
    assert!(planned.hints.is_empty());
}

#[test]
fn plan_of_a_step_without_action_is_missing_it() {
    let c = component(vec![release_step("x", "custom.notify", &[])], None);
    let planned = plan(&c, None, &Vec::new()).unwrap();
    assert_eq!(planned.steps[0].status, ReleasePlanStatus::Missing);
    assert_eq!(
        planned.steps[0].missing,
        vec!["Missing action 'release.custom.notify'".to_string()]
    );
    assert_eq!(
        planned.hints,
        vec![
            "Configure component modules to resolve release actions".to_string(),
            "Update release config with: homeboy component set shop --json".to_string(),
        ]
    );
    let executor = Acting::new(Vec::new(), 0);
    let report = run(&c, None, &Vec::new(), &executor).unwrap();
    assert_eq!(report.result.steps.len(), 1);
    assert_eq!(report.result.steps[0].status, PipelineRunStatus::Skipped);
    assert_eq!(report.result.overall, PipelineRunStatus::Success);
    assert!(executor.asked.borrow().is_empty());
}

#[test]
fn plan_names_the_modules_where_an_action_is_missing() {
    let installed = vec![module("b", &["release.ok"]), module("a", &[])];
    let c = component(
        vec![release_step("x", "custom.notify", &[]), release_step("y", "ok", &[])],
        Some(vec!["b", "a"]),
    );
    let planned = plan(&c, None, &installed).unwrap();
    assert_eq!(planned.steps[0].status, ReleasePlanStatus::Missing);
    assert_eq!(planned.steps[1].status, ReleasePlanStatus::Ready);
    assert_eq!(
        planned.hints,
        vec![
            "Release actions are resolved from modules: a, b".to_string(),
            "Update release config with: homeboy component set shop --json".to_string(),
        ]
    );
}

#[test]
fn plan_without_steps_says_so() {
    let planned = plan(&component(Vec::new(), None), None, &Vec::new()).unwrap();
    assert!(planned.steps.is_empty());
    assert_eq!(
        planned.hints,
        vec![
            "Release plan has no steps".to_string(),
            "Update release config with: homeboy component set shop --json".to_string(),
        ]
    );
}

#[test]
fn hints_are_built_from_steps_and_modules() {
    let ready = ReleasePlanStep {
        id: "a".to_string(),
        step_type: "build".to_string(),
        label: None,
        needs: Vec::new(),
        config: Vec::new(),
        status: ReleasePlanStatus::Ready,
        missing: Vec::new(),
    };
    assert!(build_plan_hints("shop", &vec![ready], &vec![module("m", &[])]).is_empty());
}

#[test]
fn switched_off_release_is_planned_as_disabled() {
    let mut c = component(
        vec![release_step("a", "build", &[]), release_step("x", "custom.notify", &[])],
        None,
    );
    c.release.as_mut().unwrap().enabled = Some(false);
    let planned = plan(&c, None, &Vec::new()).unwrap();
    assert!(!planned.enabled);
    assert!(planned.steps.iter().all(|s| s.status == ReleasePlanStatus::Disabled));
    assert!(planned.steps.iter().all(|s| s.missing.is_empty()));
    assert!(planned.hints.is_empty());
}

#[test]
fn component_without_release_is_refused() {
    let c = Component { id: "shop".to_string(), release: None, modules: None };
    match plan(&c, None, &Vec::new()) {
        Err(e) => {
            assert_eq!(e.message(), "Release configuration is missing");
            assert_eq!(
                e.hints(),
                vec![
                    "Use 'homeboy component set shop --json' to add a release block".to_string(),
                    "See 'homeboy docs commands/release' for examples".to_string(),
                ]
            );
            assert!(matches!(e, Error::MissingReleaseConfig { component_id } if component_id == "shop"));
        }
        Ok(_) => panic!("expected a refusal"),
    }
    let executor = Acting::new(Vec::new(), 0);
    assert!(matches!(
        run(&c, None, &Vec::new(), &executor),
        Err(Error::MissingReleaseConfig { .. })
    ));
}

#[test]
fn module_errors_come_before_the_missing_release() {
    let c = Component {
        id: "shop".to_string(),
        release: None,
        modules: Some(vec!["absent".to_string()]),
    };
    assert!(matches!(plan(&c, None, &Vec::new()), Err(Error::ModuleNotFound { .. })));
    assert!(matches!(plan(&c, Some("m"), &Vec::new()), Err(Error::ModuleSelectionUnsupported)));
}

#[test]
fn release_plan_is_the_same_when_planned_again() {
    let installed = vec![module("m", &["release.custom.notify"])];
    let c = component(
        vec![
            release_step("n", "custom.notify", &["b"]),
            release_step("b", "build", &[]),
            release_step("q", "custom.absent", &[]),
        ],
        Some(vec!["m"]),
    );
    let first = plan(&c, None, &installed).unwrap();
    let second = plan(&c, None, &installed).unwrap();
    assert_eq!(format!("{:?}", first), format!("{:?}", second));
}

#[test]
fn failed_build_fails_the_release_and_skips_the_version() {
    let c = component(
        vec![release_step("build", "build", &[]), release_step("version", "version", &["build"])],
        None,
    );
    let executor = Acting::new(Vec::new(), 1);
    let report = run(&c, None, &Vec::new(), &executor).unwrap();
    assert_eq!(report.component_id, "shop");
    assert!(report.enabled);
    assert_eq!(report.result.steps[0].status, PipelineRunStatus::Failed);
    assert_eq!(report.result.steps[0].data.as_deref(), Some("{\"output\":\"built\"}"));
    assert_eq!(report.result.steps[1].status, PipelineRunStatus::Skipped);
    assert_eq!(report.result.overall, PipelineRunStatus::Failed);
    assert_eq!(*executor.asked.borrow(), vec!["Build".to_string()]);
}

#[test]
fn release_runs_every_step_that_may_run() {
    let installed = vec![module("slack", &["release.custom.notify"])];
    let c = component(
        vec![
            release_step("notify", "custom.notify", &["tag"]),
            release_step("build", "build", &[]),
            release_step("tag", "git.tag", &["build"]),
        ],
        Some(vec!["slack"]),
    );
    let executor = Acting::new(vec![module("slack", &["release.custom.notify"])], 0);
    let report = run(&c, None, &installed, &executor).unwrap();
    let order: Vec<&str> = report.result.steps.iter().map(|r| r.id.as_str()).collect();
    assert_eq!(order, vec!["build", "tag", "notify"]);
    assert!(report.result.steps.iter().all(|r| r.status == PipelineRunStatus::Success));
    assert_eq!(report.result.overall, PipelineRunStatus::Success);
    assert_eq!(executor.asked.borrow().len(), 3);
}

#[test]
fn ambiguous_module_is_refused_before_anything_runs() {
    let installed = vec![module("a", &["release.x"]), module("b", &["release.x"])];
    let c = component(
        vec![release_step("first", "build", &[]), release_step("s", "x", &["first"])],
        Some(vec!["b", "a"]),
    );
    match plan(&c, None, &installed) {
        Err(Error::AmbiguousModule { action_id, modules }) => {
            assert_eq!(action_id, "release.x");
            assert_eq!(modules, vec!["a".to_string(), "b".to_string()]);
        }
        other => panic!("expected ambiguity, got {:?}", other),
    }
    let executor = Acting::new(Vec::new(), 0);
    match run(&c, None, &installed, &executor) {
        Err(e) => assert_eq!(e.message(), "Multiple modules provide action 'release.x' (a, b)"),
        Ok(r) => panic!("expected ambiguity, got {:?}", r),
    }
    assert!(executor.asked.borrow().is_empty());
}

#[test]
fn core_step_without_handler_is_refused_before_anything_runs() {
    let c = component(
        vec![release_step("log", "changelog", &["b"]), release_step("b", "build", &[])],
        None,
    );
    assert!(matches!(
        plan(&c, None, &Vec::new()),
        Err(Error::UnsupportedCoreStep { step_type }) if step_type == "changelog"
    ));
    let executor = Acting::new(Vec::new(), 0);
    assert!(matches!(
        run(&c, None, &Vec::new(), &executor),
        Err(Error::UnsupportedCoreStep { .. })
    ));
    assert!(executor.asked.borrow().is_empty());
}

#[test]
fn ordering_errors_come_before_step_problems() {
    let c = component(
        vec![release_step("log", "changelog", &["log2"]), release_step("log", "changelog", &[])],
        None,
    );
    assert!(matches!(plan(&c, None, &Vec::new()), Err(Error::DuplicateStepId { .. })));
    let installed = vec![module("a", &["release.x"]), module("b", &["release.x"])];
    let c = component(
        vec![release_step("s", "x", &[]), release_step("log", "changelog", &[])],
        Some(vec!["a", "b"]),
    );
    assert!(matches!(plan(&c, None, &installed), Err(Error::AmbiguousModule { .. })));
    let c = component(
        vec![release_step("s", "x", &["log"]), release_step("log", "changelog", &[])],
        Some(vec!["a", "b"]),
    );
    assert!(matches!(plan(&c, None, &installed), Err(Error::UnsupportedCoreStep { .. })));
}

#[test]
fn ambiguous_module_fails_the_step_at_dispatch() {
    let executor = ReleaseStepExecutor::new(
        "shop".to_string(),
        vec![module("a", &["release.x"]), module("b", &["release.x"])],
    );
    match executor.execute_step(&pipeline_step("s", "x", Vec::new())) {
        Err(e) => assert_eq!(e.message(), "Multiple modules provide action 'release.x' (a, b)"),
        Ok(a) => panic!("expected ambiguity, got {:?}", a),
    }
    struct Everything;
    impl PipelineCapabilityResolver for Everything {
        fn is_supported(&self, _step_type: &str) -> bool {
            true
        }

        fn missing(&self, _step_type: &str) -> Vec<String> {
            Vec::new()
        }
    }
    let acting = Acting::new(vec![module("a", &["release.x"]), module("b", &["release.x"])], 0);
    let steps = vec![pipeline_step("s", "x", Vec::new()), pipeline_step("t", "absent", Vec::new())];
    let report = homeboy::pipeline::run(&steps, &acting, &Everything, true, "release.steps").unwrap();
    assert_eq!(report.steps[0].status, PipelineRunStatus::Failed);
    assert_eq!(
        report.steps[0].error.as_deref(),
        Some("Multiple modules provide action 'release.x' (a, b)")
    );
    assert_eq!(report.steps[1].status, PipelineRunStatus::Failed);
    assert_eq!(report.steps[1].error.as_deref(), Some("Missing module action 'release.absent'"));
    assert_eq!(report.overall, PipelineRunStatus::Failed);
}
