use homeboy::deploy::{
    build_result, command_failure, component_result, deploy_component_artifact, deploy_one,
    find_version, plan_components_to_deploy, remote_version_command, run, scp_result, zip_deploy,
    zip_upload_name, Component, ComponentVersion, DeployArgs, DeployHost, RemoteExec,
    VersionTarget,
};
use homeboy::error::Error;
use homeboy::ssh::CommandOutput;

/// Records what it is asked and answers as scripted.
struct TestRemoteExec {
    commands: std::cell::RefCell<Vec<String>>,
    uploads: std::cell::RefCell<Vec<(String, String)>>,
    failing_command: Option<&'static str>,
    failing_upload: bool,
    failing_build: bool,
    builds: std::cell::RefCell<usize>,
    artifacts: bool,
}

impl Default for TestRemoteExec {
    fn default() -> Self {
        TestRemoteExec {
            commands: std::cell::RefCell::new(Vec::new()),
            uploads: std::cell::RefCell::new(Vec::new()),
            failing_command: None,
            failing_upload: false,
            failing_build: false,
            builds: std::cell::RefCell::new(0),
            artifacts: true,
        }
    }
}

impl TestRemoteExec {
    fn commands(&self) -> Vec<String> {
        self.commands.borrow().clone()
    }

    fn scp_call_count(&self) -> usize {
        self.uploads.borrow().len()
    }
}

impl RemoteExec for TestRemoteExec {
    fn execute(&self, command: &str) -> CommandOutput {
        self.commands.borrow_mut().push(command.to_string());
        let fails = self.failing_command.map(|part| command.contains(part)).unwrap_or(false);
        CommandOutput {
            stdout: String::new(),
            stderr: if fails { "no space left".to_string() } else { String::new() },
            success: !fails,
            exit_code: if fails { 28 } else { 0 },
        }
    }

    fn upload(&self, local_path: &str, remote_path: &str) -> (Option<i32>, Option<String>) {
        self.uploads.borrow_mut().push((local_path.to_string(), remote_path.to_string()));
        if self.failing_upload {
            (Some(255), Some("connection lost".to_string()))
        } else {
            (Some(0), None)
        }
    }
}

impl DeployHost for TestRemoteExec {
    fn build(&self, component: &Component) -> (Option<i32>, Option<String>) {
        *self.builds.borrow_mut() += 1;
        build_result(&component.id, !self.failing_build, Some(if self.failing_build { 2 } else { 0 }))
    }

    fn artifact_exists(&self, _path: &str) -> bool {
        self.artifacts
    }
}

fn sell_my_images() -> Component {
    Component {
        id: "sell-my-images".to_string(),
        name: "Sell My Images".to_string(),
        local_path: "/tmp".to_string(),
        remote_path: "wp-content/plugins/sell-my-images".to_string(),
        build_artifact: "/tmp/sell-my-images.zip".to_string(),
        build_command: None,
        version_targets: None,
    }
}

fn other(id: &str, artifact: &str) -> Component {
    Component {
        id: id.to_string(),
        name: id.to_uppercase(),
        local_path: "/src".to_string(),
        remote_path: format!("apps/{}", id),
        build_artifact: artifact.to_string(),
        build_command: Some("make".to_string()),
        version_targets: Some(vec![VersionTarget { file: "VERSION".to_string(), pattern: None }]),
    }
}

fn args(ids: &[&str], all: bool, outdated: bool) -> DeployArgs {
    DeployArgs {
        project_id: "saraichinwag".to_string(),
        component_ids: ids.iter().map(|s| s.to_string()).collect(),
        all,
        outdated,
        build: false,
        dry_run: false,
    }
}

fn version(id: &str, v: &str) -> ComponentVersion {
    ComponentVersion { id: id.to_string(), version: v.to_string() }
}

#[test]
fn dry_run_short_circuits_without_scp_calls() {
    let all_components = vec![sell_my_images()];

    let args = DeployArgs {
        project_id: "saraichinwag".to_string(),
        component_ids: vec![],
        all: true,
        outdated: false,
        build: false,
        dry_run: true,
    };

    let client = TestRemoteExec::default();

    let selected =
        plan_components_to_deploy(&args, &all_components, &Vec::new(), &Vec::new()).unwrap();
    assert_eq!(selected.len(), 1);

    let (output, code) = run(args, &selected, "/var/www", &Vec::new(), &Vec::new(), &client);
    assert_eq!(output.components.len(), 1);
    assert_eq!(code, 0);

    assert_eq!(client.scp_call_count(), 0);
}

#[test]
fn zip_deploy_creates_dir_and_unzips_into_install_dir() {
    let component = sell_my_images();

    let client = TestRemoteExec::default();

    let (exit_code, error) = deploy_component_artifact(&client, "/var/www/site", &component);
    assert_eq!(exit_code, Some(0));
    assert!(error.is_none());

    let commands = client.commands().join("\n");
    assert!(commands.contains("mkdir -p '/var/www/site/wp-content/plugins/sell-my-images'"));
    assert!(commands.contains("cd '/var/www/site/wp-content/plugins/sell-my-images'"));
    assert!(commands.contains("unzip -o '/var/www/site/wp-content/plugins/sell-my-images/.homeboy-sell-my-images.zip'"));
}

#[test]
fn zip_deploy_is_written_out_in_full() {
    let steps = zip_deploy("/var/www/site", &sell_my_images()).unwrap();
    assert_eq!(steps.install_dir, "/var/www/site/wp-content/plugins/sell-my-images");
    assert_eq!(
        steps.upload_path,
        "/var/www/site/wp-content/plugins/sell-my-images/.homeboy-sell-my-images.zip"
    );
    assert_eq!(
        steps.mkdir_command,
        "cd '/' && mkdir -p '/var/www/site/wp-content/plugins/sell-my-images'"
    );
    assert_eq!(
        steps.unzip_command,
        "cd '/var/www/site/wp-content/plugins/sell-my-images' && unzip -o '/var/www/site/wp-content/plugins/sell-my-images/.homeboy-sell-my-images.zip' && rm '/var/www/site/wp-content/plugins/sell-my-images/.homeboy-sell-my-images.zip'"
    );
}

#[test]
fn zip_is_uploaded_under_a_marked_name() {
    assert_eq!(zip_upload_name("/tmp/sell-my-images.zip"), ".homeboy-sell-my-images.zip");
    assert_eq!(zip_upload_name("plugin.zip"), ".homeboy-plugin.zip");
    assert_eq!(zip_upload_name("a/b/.zip"), ".homeboy-.zip");
}

#[test]
fn zip_deploy_stops_at_the_first_failure() {
    let component = sell_my_images();
    let no_mkdir = TestRemoteExec { failing_command: Some("mkdir"), ..Default::default() };
    assert_eq!(
        deploy_component_artifact(&no_mkdir, "/var/www", &component),
        (Some(28), Some("no space left".to_string()))
    );
    assert_eq!(no_mkdir.commands().len(), 1);
    assert_eq!(no_mkdir.scp_call_count(), 0);

    let no_upload = TestRemoteExec { failing_upload: true, ..Default::default() };
    assert_eq!(
        deploy_component_artifact(&no_upload, "/var/www", &component),
        (Some(255), Some("connection lost".to_string()))
    );
    assert_eq!(no_upload.commands().len(), 1);

    let no_unzip = TestRemoteExec { failing_command: Some("unzip"), ..Default::default() };
    assert_eq!(
        deploy_component_artifact(&no_unzip, "/var/www", &component),
        (Some(28), Some("no space left".to_string()))
    );
    assert_eq!(no_unzip.commands().len(), 2);
    assert_eq!(no_unzip.scp_call_count(), 1);
}

#[test]
fn other_artifacts_are_copied_as_they_are() {
    let client = TestRemoteExec::default();
    let component = other("api", "/src/api.tar.gz");
    assert_eq!(deploy_component_artifact(&client, "/srv/", &component), (Some(0), None));
    assert!(client.commands().is_empty());
    assert_eq!(
        *client.uploads.borrow(),
        vec![("/src/api.tar.gz".to_string(), "/srv/apps/api".to_string())]
    );
}

#[test]
fn deployment_without_a_place_to_go_is_refused() {
    let client = TestRemoteExec::default();
    let mut component = sell_my_images();
    component.remote_path = "  ".to_string();
    assert_eq!(
        deploy_component_artifact(&client, "/var/www", &component),
        (Some(1), Some("Path cannot be empty".to_string()))
    );
    component.build_artifact = "plain.tar".to_string();
    assert_eq!(
        deploy_component_artifact(&client, "/var/www", &component),
        (Some(1), Some("Path cannot be empty".to_string()))
    );
    assert!(client.commands().is_empty());
    assert_eq!(client.scp_call_count(), 0);
}

#[test]
fn components_are_picked_by_all_by_name_or_by_age() {
    let all = vec![other("a", "a.zip"), other("b", "b.zip"), other("c", "c.zip")];
    let picked = |a: &DeployArgs, local: &Vec<ComponentVersion>, remote: &Vec<ComponentVersion>| {
        plan_components_to_deploy(a, &all, local, remote)
            .unwrap()
            .iter()
            .map(|c| c.id.clone())
            .collect::<Vec<_>>()
    };
    let none = Vec::new();
    assert_eq!(picked(&args(&["c"], true, true), &none, &none), vec!["a", "b", "c"]);
    assert_eq!(picked(&args(&["c", "a", "zzz"], false, true), &none, &none), vec!["a", "c"]);
    let local = vec![version("a", "1.0.0"), version("b", "1.2.0")];
    let remote = vec![version("a", "1.0.0"), version("b", "1.1.0"), version("c", "3.0.0")];
    assert_eq!(picked(&args(&[], false, true), &local, &remote), vec!["b", "c"]);
    assert_eq!(picked(&args(&[], false, true), &none, &none), vec!["a", "b", "c"]);
}

#[test]
fn picked_components_are_whole() {
    let all = vec![other("a", "a.zip")];
    let picked = plan_components_to_deploy(&args(&[], true, false), &all, &Vec::new(), &Vec::new())
        .unwrap();
    assert_eq!(picked[0].name, "A");
    assert_eq!(picked[0].local_path, "/src");
    assert_eq!(picked[0].remote_path, "apps/a");
    assert_eq!(picked[0].build_artifact, "a.zip");
    assert_eq!(picked[0].build_command.as_deref(), Some("make"));
    assert_eq!(picked[0].version_targets.as_ref().unwrap()[0].file, "VERSION");
}

#[test]
fn asking_for_no_components_is_refused() {
    match plan_components_to_deploy(&args(&[], false, false), &Vec::new(), &Vec::new(), &Vec::new()) {
        Err(Error::Other { message }) => assert_eq!(
            message,
            "No components specified. Use component IDs, --all, or --outdated"
        ),
        other => panic!("expected a refusal, got {:?}", other),
    }
}

#[test]
fn first_version_of_a_component_is_the_one_found() {
    let versions = vec![version("a", "1"), version("b", "2"), version("a", "3")];
    assert_eq!(find_version(&versions, "a"), Some("1".to_string()));
    assert_eq!(find_version(&versions, "b"), Some("2".to_string()));
    assert_eq!(find_version(&versions, "c"), None);
}

#[test]
fn remote_version_is_read_with_cat() {
    assert_eq!(
        remote_version_command("/srv", &other("api", "x")),
        Some("cat '/srv/apps/api/VERSION' 2>/dev/null".to_string())
    );
    assert_eq!(remote_version_command("/srv", &sell_my_images()), None);
    let mut no_targets = other("api", "x");
    no_targets.version_targets = Some(Vec::new());
    assert_eq!(remote_version_command("/srv", &no_targets), None);
    let mut no_file = other("api", "x");
    no_file.version_targets = Some(vec![VersionTarget { file: " ".to_string(), pattern: None }]);
    assert_eq!(remote_version_command("/srv", &no_file), None);
}

#[test]
fn outcomes_of_builds_and_copies_are_reported() {
    assert_eq!(build_result("api", true, Some(0)), (Some(0), None));
    assert_eq!(build_result("api", true, None), (Some(0), None));
    assert_eq!(build_result("api", false, Some(2)), (Some(2), Some("Build failed for api".to_string())));
    assert_eq!(build_result("api", false, None), (Some(1), Some("Build failed for api".to_string())));
    assert_eq!(scp_result(true, Some(0), "ignored".to_string()), (Some(0), None));
    assert_eq!(scp_result(true, None, String::new()), (Some(0), None));
    assert_eq!(scp_result(false, Some(3), "denied".to_string()), (Some(3), Some("denied".to_string())));
    assert_eq!(scp_result(false, None, "killed".to_string()), (Some(1), Some("killed".to_string())));
    let ok = CommandOutput { stdout: "x".into(), stderr: "warn".into(), success: true, exit_code: 0 };
    assert_eq!(command_failure(ok), None);
    let bad = CommandOutput { stdout: "x".into(), stderr: "err".into(), success: false, exit_code: 9 };
    assert_eq!(command_failure(bad), Some((Some(9), Some("err".to_string()))));
}

#[test]
fn component_result_says_where_the_artifact_goes() {
    let r = component_result(
        &other("api", "/src/api.zip"),
        "/srv",
        "would_deploy",
        Some("1.0".to_string()),
        None,
        None,
        None,
        Some(0),
    );
    assert_eq!(r.id, "api");
    assert_eq!(r.name, "API");
    assert_eq!(r.status, "would_deploy");
    assert_eq!(r.local_version.as_deref(), Some("1.0"));
    assert_eq!(r.artifact_path.as_deref(), Some("/src/api.zip"));
    assert_eq!(r.remote_path.as_deref(), Some("/srv/apps/api"));
    assert_eq!(r.build_command.as_deref(), Some("make"));
    assert_eq!(r.scp_exit_code, Some(0));
    let mut nowhere = other("api", "x");
    nowhere.remote_path = String::new();
    let fallback = component_result(&nowhere, "/srv", "failed", None, None, None, None, None);
    assert_eq!(fallback.remote_path.as_deref(), Some(""));
}

#[test]
fn deployment_counts_what_went_well_and_what_did_not() {
    let host = TestRemoteExec { failing_command: Some("apps/b"), ..Default::default() };
    let components = vec![other("a", "a.zip"), other("b", "b.zip"), other("c", "c.tar")];
    let local = vec![version("a", "2.0"), version("b", "2.0")];
    let remote = vec![version("a", "1.0")];
    let mut a = args(&[], true, false);
    a.build = true;
    let (output, code) = run(a, &components, "/srv", &local, &remote, &host);
    assert_eq!(code, 1);
    assert_eq!(output.project_id, "saraichinwag");
    assert!(output.all && output.build && !output.dry_run && !output.outdated);
    assert_eq!(output.summary.succeeded, 2);
    assert_eq!(output.summary.failed, 1);
    assert_eq!(output.summary.skipped, 0);
    let statuses: Vec<&str> = output.components.iter().map(|c| c.status.as_str()).collect();
    assert_eq!(statuses, vec!["deployed", "failed", "deployed"]);
    assert_eq!(output.components[0].remote_version.as_deref(), Some("2.0"));
    assert_eq!(output.components[0].build_exit_code, Some(0));
    assert_eq!(output.components[1].error.as_deref(), Some("no space left"));
    assert_eq!(output.components[1].scp_exit_code, Some(28));
    assert_eq!(output.components[2].local_version, None);
    assert_eq!(*host.builds.borrow(), 3);
}

#[test]
fn dry_run_reports_every_component_and_touches_nothing() {
    let host = TestRemoteExec { artifacts: false, failing_build: true, ..Default::default() };
    let components = vec![other("a", "a.zip"), sell_my_images()];
    let mut a = args(&[], true, false);
    a.dry_run = true;
    a.build = true;
    let local = vec![version("a", "2.0")];
    let remote = vec![version("a", "1.0")];
    let (output, code) = run(a, &components, "/srv", &local, &remote, &host);
    assert_eq!(code, 0);
    assert!(output.dry_run);
    assert_eq!(output.summary.succeeded, 2);
    assert_eq!(output.summary.failed, 0);
    assert!(output.components.iter().all(|c| c.status == "would_deploy"));
    assert_eq!(output.components[0].local_version.as_deref(), Some("2.0"));
    assert_eq!(output.components[0].remote_version.as_deref(), Some("1.0"));
    assert!(output.components.iter().all(|c| c.error.is_none() && c.scp_exit_code.is_none()));
    assert_eq!(*host.builds.borrow(), 0);
    assert!(host.commands().is_empty());
    assert_eq!(host.scp_call_count(), 0);
}

#[test]
fn one_component_fails_on_build_on_artifact_or_on_copy() {
    let c = other("a", "/src/a.tar");
    let bad_build = TestRemoteExec { failing_build: true, ..Default::default() };
    let (r, deployed) = deploy_one(&bad_build, true, "/srv", &c, None, None);
    assert!(!deployed);
    assert_eq!(r.status, "failed");
    assert_eq!(r.error.as_deref(), Some("Build failed for a"));
    assert_eq!(r.build_exit_code, Some(2));
    assert_eq!(bad_build.scp_call_count(), 0);

    let (r, deployed) = deploy_one(&bad_build, false, "/srv", &c, None, None);
    assert!(deployed);
    assert_eq!(r.status, "deployed");
    assert_eq!(r.build_exit_code, None);

    let no_artifact = TestRemoteExec { artifacts: false, ..Default::default() };
    let (r, deployed) = deploy_one(&no_artifact, true, "/srv", &c, Some("1".into()), Some("0".into()));
    assert!(!deployed);
    assert_eq!(r.error.as_deref(), Some("Artifact not found: /src/a.tar"));
    assert_eq!(r.build_exit_code, Some(0));
    assert_eq!(r.remote_version.as_deref(), Some("0"));

    let no_copy = TestRemoteExec { failing_upload: true, ..Default::default() };
    let (r, deployed) = deploy_one(&no_copy, false, "/srv", &c, Some("1".into()), None);
    assert!(!deployed);
    assert_eq!(r.error.as_deref(), Some("connection lost"));
    assert_eq!(r.scp_exit_code, Some(255));
    assert_eq!(r.remote_version, None);
}
