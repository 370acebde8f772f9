use homeboy::deploy::{
    deployment_outcome, fetch_remote_versions, remote_version, Component, RemoteExec, VersionTarget,
};
use homeboy::ssh::CommandOutput;

/// Answers each command with the text that is scripted for a part of it.
struct Scripted {
    answers: Vec<(&'static str, &'static str)>,
    asked: std::cell::RefCell<Vec<String>>,
}

impl RemoteExec for Scripted {
    fn execute(&self, command: &str) -> CommandOutput {
        self.asked.borrow_mut().push(command.to_string());
        match self.answers.iter().find(|(part, _)| command.contains(part)) {
            Some((_, stdout)) => CommandOutput {
                stdout: stdout.to_string(),
                stderr: String::new(),
                success: true,
                exit_code: 0,
            },
            None => CommandOutput {
                stdout: " * Version: 9.9.9".to_string(),
                stderr: "No such file".to_string(),
                success: false,
                exit_code: 1,
            },
        }
    }

    fn upload(&self, _local_path: &str, _remote_path: &str) -> (Option<i32>, Option<String>) {
        (Some(0), None)
    }
}

fn component(id: &str, file: Option<&str>, pattern: Option<&str>) -> Component {
    Component {
        id: id.to_string(),
        name: id.to_string(),
        local_path: "/src".to_string(),
        remote_path: format!("plugins/{}", id),
        build_artifact: format!("/src/{}.zip", id),
        build_command: None,
        version_targets: file.map(|f| {
            vec![VersionTarget { file: f.to_string(), pattern: pattern.map(|p| p.to_string()) }]
        }),
    }
}

fn output(stdout: &str, success: bool) -> CommandOutput {
    CommandOutput {
        stdout: stdout.to_string(),
        stderr: String::new(),
        success,
        exit_code: if success { 0 } else { 1 },
    }
}

#[test]
fn remote_version_reads_the_header_of_what_was_printed() {
    let plain = component("shop", Some("shop.php"), None);
    assert_eq!(
        remote_version(&plain, &output("<?php\n * Version: 1.2.3\n", true)).as_deref(),
        Some("1.2.3")
    );
    assert_eq!(remote_version(&plain, &output("<?php\n * Version: 1.2.3\n", false)), None);
    assert_eq!(remote_version(&plain, &output("nothing here", true)), None);
    let own = component("shop", Some("shop.php"), Some("v(\\d+)"));
    assert_eq!(remote_version(&own, &output(" * Version: 1.2.3", true)), None);
    let bare = component("shop", None, None);
    assert_eq!(remote_version(&bare, &output(" * Version: 4.5.6", true)).as_deref(), Some("4.5.6"));
}

#[test]
fn fetch_remote_versions_asks_for_each_version_file() {
    let client = Scripted {
        answers: vec![("plugins/a/", " * Version: 1.0.0\n"), ("plugins/c/", "no header")],
        asked: std::cell::RefCell::new(Vec::new()),
    };
    let components = vec![
        component("a", Some("a.php"), None),
        component("none", None, None),
        component("b", Some("b.php"), None),
        component("c", Some("c.php"), None),
        component("a", Some("style.css"), None),
    ];
    let versions = fetch_remote_versions(&components, "/srv", &client);
    let seen: Vec<(&str, &str)> = versions.iter().map(|v| (v.id.as_str(), v.version.as_str())).collect();
    assert_eq!(seen, vec![("a", "1.0.0"), ("a", "1.0.0")]);
    assert_eq!(
        *client.asked.borrow(),
        vec![
            "cat '/srv/plugins/a/a.php' 2>/dev/null",
            "cat '/srv/plugins/b/b.php' 2>/dev/null",
            "cat '/srv/plugins/c/c.php' 2>/dev/null",
            "cat '/srv/plugins/a/style.css' 2>/dev/null",
        ]
    );
    assert!(fetch_remote_versions(&Vec::new(), "/srv", &client).is_empty());
}

#[test]
fn deployment_outcome_reports_the_first_thing_that_went_wrong() {
    let c = component("shop", Some("shop.php"), None);
    let some = |s: &str| Some(s.to_string());
    let failed_build = (Some(2), some("Build failed for shop"));
    let good_build = (Some(0), None);
    let failed_copy = (Some(255), some("connection lost"));
    let good_copy = (Some(0), None);

    let (report, ok) = deployment_outcome(&c, "/srv", some("1.1"), some("1.0"), failed_build.clone(), true, good_copy.clone());
    assert!(!ok);
    assert_eq!(report.status, "failed");
    assert_eq!(report.error.as_deref(), Some("Build failed for shop"));
    assert_eq!((report.build_exit_code, report.scp_exit_code), (Some(2), None));
    assert_eq!((report.local_version.as_deref(), report.remote_version.as_deref()), (Some("1.1"), Some("1.0")));

    let (report, ok) = deployment_outcome(&c, "/srv", some("1.1"), some("1.0"), good_build.clone(), false, good_copy.clone());
    assert!(!ok);
    assert_eq!(report.status, "failed");
    assert_eq!(report.error.as_deref(), Some("Artifact not found: /src/shop.zip"));
    assert_eq!((report.build_exit_code, report.scp_exit_code), (Some(0), None));

    let (report, ok) = deployment_outcome(&c, "/srv", some("1.1"), None, (None, None), true, failed_copy);
    assert!(!ok);
    assert_eq!(report.status, "failed");
    assert_eq!(report.error.as_deref(), Some("connection lost"));
    assert_eq!((report.build_exit_code, report.scp_exit_code), (None, Some(255)));
    assert_eq!(report.remote_version, None);

    let (report, ok) = deployment_outcome(&c, "/srv", some("1.1"), some("1.0"), good_build, true, good_copy);
    assert!(ok);
    assert_eq!(report.status, "deployed");
    assert_eq!(report.error, None);
    assert_eq!((report.build_exit_code, report.scp_exit_code), (Some(0), Some(0)));
    assert_eq!((report.local_version.as_deref(), report.remote_version.as_deref()), (Some("1.1"), Some("1.1")));
    assert_eq!(report.id, "shop");
    assert_eq!(report.artifact_path.as_deref(), Some("/src/shop.zip"));
    assert_eq!(report.remote_path.as_deref(), Some("/srv/plugins/shop"));
}
