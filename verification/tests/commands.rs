use homeboy::auth::{credentials, login, status};
use homeboy::commands::auth::{login_prompts, run_login, run_logout, run_status, AuthOutput};
use homeboy::commands::changelog::{
    add_mode, is_show_markdown, run_markdown, show_json, show_markdown, AddMode, ChangelogArgs,
    ChangelogCommand,
};
use homeboy::commands::component::{
    check_delete, create, create_json, deleted, projects_using, report, required,
    ProjectUse, SetComponentArgs,
};
use homeboy::commands::doctor::{
    exit_code, fail_to_core, scans_file, scope_to_core, DoctorArgs, DoctorScope, DoctorSummary, FailOn,
    FailOnArg, ScopeArg,
};
use homeboy::commands::file::FileCommandOutput;
use homeboy::commands::git::{
    bulk_exit_code, commit_mode, is_json_spec, tag_source, target, version_tag, CommitMode,
    TagSource,
};
use homeboy::commands::init::{
    module_entry, next_steps, run_json, shown_components, shown_projects, shown_servers,
    ContextOutput, InitArgs, ModuleInfo, Project,
};
use homeboy::commands::logs::{is_interactive, LogsArgs, LogsCommand};
use homeboy::commands::server::{key_report, port_or_default, update, ProjectServer};
use homeboy::commands::ssh::{connected, listed, lists_servers, SshArgs, SshOutput, SshSubcommand};
use homeboy::commands::version::{
    commit_message, files_to_stage, non_empty, resolved_id, show_version_output, BumpType,
    VersionTargetInfo,
};
use homeboy::commands::DynamicSetArgs;
use homeboy::component::{parse_version_target, parse_version_targets, Component, ComponentConfiguration, Record};
use homeboy::config::{check_id_collision, list_ids, BatchResult, DirEntry};
use homeboy::error::Error;
use homeboy::json::{load_op_data, parse_kv_flags, OpPayload};
use homeboy::logs::{LogContent, LogSearchResult};
use homeboy::remote_files::{FindResult, GrepResult, ListResult, RenameResult, WriteResult};
use homeboy::ssh::ServerConfig;

fn strings(items: &[&str]) -> Vec<String> {
    items.iter().map(|s| s.to_string()).collect()
}

fn argument_message<T: std::fmt::Debug>(r: Result<T, Error>) -> (String, String) {
    match r {
        Err(Error::InvalidArgument { field, message, .. }) => (field, message),
        other => panic!("expected a refused argument, got {:?}", other),
    }
}

#[test]
fn json_spec_prefers_the_flag() {
    let mut args =
        DynamicSetArgs { id: None, spec: Some("{}".into()), json: Some("[]".into()), extra: vec![] };
    assert_eq!(args.json_spec(), Some("[]"));
    args.json = None;
    assert_eq!(args.json_spec(), Some("{}"));
    args.spec = None;
    assert_eq!(args.json_spec(), None);
}

#[test]
fn flags_are_read_in_pairs() {
    let flags = parse_kv_flags(&strings(&["--remote-path", "/var/www", "--x", "--y", "--x", "2"]))
        .unwrap();
    let read: Vec<(&str, &str)> = flags.iter().map(|f| (f.key.as_str(), f.value.as_str())).collect();
    assert_eq!(read, vec![("remote-path", "/var/www"), ("x", "--y"), ("x", "2")]);
    assert!(parse_kv_flags(&Vec::new()).unwrap().is_empty());
    assert_eq!(
        argument_message(parse_kv_flags(&strings(&["--a", "1", "b", "2"]))),
        ("flag".to_string(), "Expected flag starting with '--', got: b".to_string())
    );
    assert_eq!(
        argument_message(parse_kv_flags(&strings(&["--", "1"]))).1,
        "Empty flag name '--'"
    );
    assert_eq!(
        argument_message(parse_kv_flags(&strings(&["--a", "1", "--b"]))).1,
        "Flag '--b' requires a value"
    );
    assert_eq!(
        argument_message(parse_kv_flags(&strings(&["-a", "--"]))).1,
        "Expected flag starting with '--', got: -a"
    );
}

#[test]
fn payload_must_name_the_operation_that_is_due() {
    let data = load_op_data(OpPayload { op: "create".to_string(), data: 7 }, "create").unwrap();
    assert_eq!(data, 7);
    match load_op_data(OpPayload { op: "delete".to_string(), data: 7 }, "create") {
        Err(Error::InvalidArgument { field, message, given, tried }) => {
            assert_eq!(field, "op");
            assert_eq!(message, "Unexpected op 'delete'");
            assert_eq!(given.as_deref(), Some("create"));
            assert_eq!(tried, Some(vec!["create".to_string()]));
        }
        other => panic!("expected a refusal, got {:?}", other),
    }
}

#[test]
fn record_files_give_sorted_ids() {
    let entries = vec![
        DirEntry { name: "zeta.json".into(), is_dir: false },
        DirEntry { name: "alpha.json".into(), is_dir: false },
        DirEntry { name: "dir.json".into(), is_dir: true },
        DirEntry { name: "notes.txt".into(), is_dir: false },
        DirEntry { name: ".json".into(), is_dir: false },
        DirEntry { name: "a.b.json".into(), is_dir: false },
        DirEntry { name: "json".into(), is_dir: false },
        DirEntry { name: "UP.json".into(), is_dir: false },
    ];
    assert_eq!(list_ids(&entries), strings(&["UP", "a.b", "alpha", "zeta"]));
    assert!(list_ids(&Vec::new()).is_empty());
}

#[test]
fn ids_are_shared_by_no_two_kinds() {
    assert!(check_id_collision("shop", "project", true, false, false).is_ok());
    assert!(check_id_collision("shop", "thing", false, false, false).is_ok());
    match check_id_collision("shop", "component", true, true, true) {
        Err(e) => {
            assert_eq!(e.message(), "Cannot save component 'shop': the id is taken by a project");
            match e {
                Error::IdCollision { id, saving, existing } => {
                    assert_eq!((id.as_str(), saving.as_str(), existing.as_str()), ("shop", "component", "project"));
                }
                other => panic!("expected a collision, got {:?}", other),
            }
        }
        Ok(_) => panic!("expected a collision"),
    }
    assert!(matches!(
        check_id_collision("shop", "project", true, true, true),
        Err(Error::IdCollision { existing, .. }) if existing == "server"
    ));
    assert!(matches!(
        check_id_collision("shop", "server", false, true, true),
        Err(Error::IdCollision { existing, .. }) if existing == "component"
    ));
}

#[test]
fn components_are_configured_from_what_must_be_said() {
    let mut c = ComponentConfiguration::new("Shop".into(), "/src".into(), "apps/shop".into(), "shop.zip".into());
    assert_eq!(c.name(), "Shop");
    assert_eq!((c.local_path.as_str(), c.remote_path.as_str(), c.build_artifact.as_str()), ("/src", "apps/shop", "shop.zip"));
    assert!(c.version_targets.is_none() && c.changelog_targets.is_none() && c.build_command.is_none());
    assert!(c.is_network.is_none() && c.changelog_next_section_label.is_none());
    c.set_name("Store".into());
    assert_eq!(c.name(), "Store");
    assert_eq!(c.local_path, "/src");
    let record = Record::new("store".to_string(), c);
    assert_eq!(record.id, "store");
    assert_eq!(record.value.name, "Store");
}

#[test]
fn version_targets_are_a_file_and_maybe_a_pattern() {
    let plain = parse_version_target("style.css");
    assert_eq!((plain.file.as_str(), plain.pattern), ("style.css", None));
    let with = parse_version_target("plugin.php::Version:\\s*(.+)");
    assert_eq!(with.file, "plugin.php");
    assert_eq!(with.pattern.as_deref(), Some("Version:\\s*(.+)"));
    let twice = parse_version_target("a::b::c");
    assert_eq!((twice.file.as_str(), twice.pattern.as_deref()), ("a", Some("b::c")));
    let colons = parse_version_target("a:b:::c");
    assert_eq!((colons.file.as_str(), colons.pattern.as_deref()), ("a:b", Some(":c")));
    let empty = parse_version_target("::");
    assert_eq!((empty.file.as_str(), empty.pattern.as_deref()), ("", Some("")));
    let all = parse_version_targets(&strings(&["a", "b::c"]));
    assert_eq!(all.len(), 2);
    assert_eq!(all[1].pattern.as_deref(), Some("c"));
}

fn component(id: &str) -> Component {
    Component::new(id.into(), id.to_uppercase(), "/src".into(), "apps".into(), "a.zip".into())
}

#[test]
fn component_is_created_unless_it_is_there() {
    let made = create("shop", false, "Shop", "/src/shop", "apps/shop", "shop.zip", &strings(&["v.txt::v(.*)"]), Some("make".into()), None).unwrap();
    assert_eq!(made.id, "shop");
    assert_eq!(made.name, "Shop");
    assert_eq!(made.local_path, "/src/shop");
    assert_eq!(made.version_targets.as_ref().unwrap()[0].file, "v.txt");
    assert_eq!(made.build_command.as_deref(), Some("make"));
    assert!(made.extract_command.is_none());
    let bare = create("shop", false, "Shop", "~other/x", "r", "a", &Vec::new(), None, None).unwrap();
    assert!(bare.version_targets.is_none());
    assert_eq!(bare.local_path, "~other/x");
    assert_eq!(
        argument_message(create("shop", true, "Shop", "/s", "r", "a", &Vec::new(), None, None)),
        ("component.name".to_string(), "Component 'shop' already exists".to_string())
    );
    assert_eq!(required(Some("x".to_string()), "name", "name").unwrap(), "x");
    assert_eq!(
        argument_message(required(None, "localPath", "--local-path")),
        ("localPath".to_string(), "Missing required argument: --local-path (or use --json)".to_string())
    );
    let (out, code) = report("create", made, Vec::new());
    assert_eq!(code, 0);
    assert_eq!(out.action, "create");
    assert_eq!(out.component_id.as_deref(), Some("shop"));
    assert!(out.success && out.components.is_empty() && out.import.is_none());
    assert_eq!(out.component.unwrap().name, "Shop");
}

#[test]
fn import_of_components_fails_where_a_record_was_refused() {
    let mut summary = BatchResult::new();
    summary.record_created("a".into());
    let (out, code) = create_json(summary);
    assert_eq!(code, 0);
    assert!(out.success);
    assert_eq!(out.action, "component.create");
    assert_eq!(out.import.as_ref().unwrap().created, 1);
    let mut summary = BatchResult::new();
    summary.record_error("b".into(), "bad".into());
    let (out, code) = create_json(summary);
    assert_eq!(code, 1);
    assert!(!out.success);
}

#[test]
fn set_changes_what_is_named_and_lists_it() {
    let mut c = component("shop");
    let args = SetComponentArgs {
        id: "shop".into(),
        name: Some("Store".into()),
        local_path: None,
        remote_path: Some("apps/store".into()),
        build_artifact: None,
        version_targets: strings(&["VERSION"]),
        build_command: None,
        extract_command: Some("unzip -o {artifact}".into()),
    };
    let updated = homeboy::commands::component::set(&mut c, args).unwrap();
    assert_eq!(updated, strings(&["name", "remotePath", "versionTargets", "extractCommand"]));
    assert_eq!(c.name, "Store");
    assert_eq!(c.remote_path, "apps/store");
    assert_eq!(c.local_path, "/src");
    assert_eq!(c.build_artifact, "a.zip");
    assert_eq!(c.version_targets.as_ref().unwrap()[0].file, "VERSION");
    assert_eq!(c.extract_command.as_deref(), Some("unzip -o {artifact}"));
    let all = SetComponentArgs {
        id: "shop".into(),
        name: Some("n".into()),
        local_path: Some("/l".into()),
        remote_path: Some("r".into()),
        build_artifact: Some("b".into()),
        version_targets: strings(&["v"]),
        build_command: Some("c".into()),
        extract_command: Some("e".into()),
    };
    assert_eq!(
        homeboy::commands::component::set(&mut c, all).unwrap(),
        strings(&["name", "localPath", "remotePath", "buildArtifact", "versionTargets", "buildCommand", "extractCommand"])
    );
    assert_eq!(c.local_path, "/l");
    let none = SetComponentArgs {
        id: "shop".into(),
        name: None,
        local_path: None,
        remote_path: None,
        build_artifact: None,
        version_targets: Vec::new(),
        build_command: None,
        extract_command: None,
    };
    match homeboy::commands::component::set(&mut c, none) {
        Err(Error::InvalidArgument { field, message, given, .. }) => {
            assert_eq!(field, "fields");
            assert_eq!(message, "No fields specified to update");
            assert_eq!(given.as_deref(), Some("shop"));
        }
        other => panic!("expected a refusal, got {:?}", other),
    }
    assert_eq!(c.name, "n");
}

#[test]
fn component_in_use_is_kept_unless_forced() {
    let projects = vec![
        ProjectUse { id: "one".into(), component_ids: strings(&["shop", "blog"]) },
        ProjectUse { id: "two".into(), component_ids: strings(&["blog"]) },
        ProjectUse { id: "three".into(), component_ids: strings(&["x", "shop"]) },
    ];
    assert_eq!(projects_using(&projects, "shop"), strings(&["one", "three"]));
    assert!(projects_using(&projects, "none").is_empty());
    assert!(check_delete("shop", true, &projects).is_ok());
    assert!(check_delete("none", false, &projects).is_ok());
    match check_delete("shop", false, &projects) {
        Err(Error::InvalidArgument { field, message, given, tried }) => {
            assert_eq!(field, "component");
            assert_eq!(
                message,
                "Component 'shop' is used by projects: one, three. Use --force to delete anyway."
            );
            assert_eq!(given.as_deref(), Some("shop"));
            assert_eq!(tried, Some(strings(&["one", "three"])));
        }
        other => panic!("expected a refusal, got {:?}", other),
    }
    let (out, code) = deleted("shop");
    assert_eq!((out.action.as_str(), out.component_id.as_deref(), code), ("delete", Some("shop"), 0));
    let (out, _) = homeboy::commands::component::list(vec![component("a"), component("b")]);
    assert_eq!(out.action, "list");
    assert_eq!(out.components.len(), 2);
    assert!(out.component_id.is_none());
}

fn server(id: &str) -> ServerConfig {
    ServerConfig { id: id.into(), name: id.to_uppercase(), host: "h".into(), user: "u".into(), port: 22, identity_file: None }
}

#[test]
fn servers_are_reported_and_changed() {
    assert_eq!(port_or_default(None), 22);
    assert_eq!(port_or_default(Some(2200)), 2200);
    let (out, code) = homeboy::commands::server::create(server("web"));
    assert_eq!(code, 0);
    assert_eq!(out.command, "server.create");
    assert_eq!(out.server_id.as_deref(), Some("web"));
    assert_eq!(out.updated, Some(strings(&["created"])));
    assert_eq!(out.server.unwrap().name, "WEB");
    let (out, _) = homeboy::commands::server::show(server("web"));
    assert_eq!(out.command, "server.show");
    assert!(out.updated.is_none());

    assert!(homeboy::commands::server::check_set(&None, &None, &None, Some(1)).is_ok());
    assert!(homeboy::commands::server::check_set(&Some("n".into()), &None, &None, None).is_ok());
    assert!(matches!(
        homeboy::commands::server::check_set(&None, &None, &None, None),
        Err(Error::Other { message }) if message == "No changes specified"
    ));
    let mut s = server("web");
    let updated = update(&mut s, None, Some("example.com".into()), None, Some(2222));
    assert_eq!(updated, strings(&["host", "port"]));
    assert_eq!((s.host.as_str(), s.port, s.user.as_str(), s.name.as_str()), ("example.com", 2222, "u", "WEB"));
    let (out, _) = homeboy::commands::server::set(s, updated);
    assert_eq!(out.command, "server.set");
    assert_eq!(out.updated, Some(strings(&["host", "port"])));

    let mut summary = BatchResult::new();
    summary.record_error("x".into(), "bad".into());
    let (out, code) = homeboy::commands::server::create_json(summary);
    assert_eq!((out.command.as_str(), code), ("server.create", 1));
    assert!(out.import.is_some());
    let (out, _) = homeboy::commands::server::list(vec![server("a")]);
    assert_eq!(out.servers.unwrap().len(), 1);
}

#[test]
fn server_in_use_is_kept() {
    let projects = vec![
        ProjectServer { id: "one".into(), server_id: None },
        ProjectServer { id: "two".into(), server_id: Some("web".into()) },
        ProjectServer { id: "three".into(), server_id: Some("web".into()) },
    ];
    let message = |r: Result<(), Error>| match r {
        Err(Error::Other { message }) => message,
        other => panic!("expected a refusal, got {:?}", other),
    };
    assert_eq!(
        message(homeboy::commands::server::check_delete("web", false, &Vec::new())),
        "Use --force to confirm deletion"
    );
    assert_eq!(
        message(homeboy::commands::server::check_delete("web", true, &projects)),
        "Server is used by project 'two'. Update or delete the project first."
    );
    assert!(homeboy::commands::server::check_delete("db", true, &projects).is_ok());
    let (out, code) = homeboy::commands::server::delete("web");
    assert_eq!(code, 0);
    assert_eq!(out.deleted, Some(strings(&["web"])));
}

#[test]
fn keys_are_reported_with_what_was_done() {
    let (out, code) = key_report("generate", "web", Some(server("web")), Some("ssh-ed25519 AAA".into()), Some("/keys/web".into()), None);
    assert_eq!(code, 0);
    assert_eq!(out.command, "server.key.generate");
    assert_eq!(out.updated, Some(strings(&["identity_file"])));
    let key = out.key.unwrap();
    assert_eq!(key.action, "generate");
    assert_eq!(key.server_id, "web");
    assert_eq!(key.public_key.as_deref(), Some("ssh-ed25519 AAA"));
    assert_eq!(key.identity_file.as_deref(), Some("/keys/web"));
    assert!(key.imported.is_none());
    let (out, _) = key_report("show", "web", None, Some("k".into()), None, None);
    assert_eq!(out.command, "server.key.show");
    assert!(out.updated.is_none() && out.server.is_none());
}

#[test]
fn commit_goes_by_json_or_by_flags() {
    for json in ["{\"message\":\"x\"}", " [1]", "@file.json", "-", " - \n"] {
        assert!(is_json_spec(json), "{:?}", json);
    }
    for plain in ["Fix the bug", "", "  ", "-m", "a{"] {
        assert!(!is_json_spec(plain), "{:?}", plain);
    }
    let mode = commit_mode(false, &Some("shop".into()), Some("Fix".into()), None, Some("ignored".into()));
    assert!(matches!(mode, CommitMode::Flags(Some(m)) if m == "Fix"));
    let mode = commit_mode(false, &Some("shop".into()), Some("{}".into()), None, None);
    assert!(matches!(mode, CommitMode::Json(j) if j == "{}"));
    let mode = commit_mode(false, &None, Some("Fix".into()), Some("@x".into()), None);
    assert!(matches!(mode, CommitMode::Json(j) if j == "@x"));
    let mode = commit_mode(true, &Some("Only text".into()), None, None, None);
    assert!(matches!(mode, CommitMode::Flags(Some(m)) if m == "Only text"));
    let mode = commit_mode(false, &Some("shop".into()), None, None, Some("From flag".into()));
    assert!(matches!(mode, CommitMode::Flags(Some(m)) if m == "From flag"));
    let mode = commit_mode(true, &None, None, None, None);
    assert!(matches!(mode, CommitMode::Flags(None)));
    assert_eq!(target(true, &Some("shop".into())), None);
    assert_eq!(target(false, &Some("shop".into())), Some("shop"));
    assert_eq!(target(false, &None), None);
    assert_eq!(bulk_exit_code(0), 0);
    assert_eq!(bulk_exit_code(3), 1);
}

#[test]
fn tag_is_given_or_made_from_the_version() {
    assert!(matches!(tag_source(Some("v1".into()), &None), Ok(TagSource::Given(n)) if n == "v1"));
    assert!(matches!(tag_source(None, &Some("shop".into())), Ok(TagSource::Version(c)) if c == "shop"));
    assert_eq!(
        argument_message(tag_source(None, &None)),
        ("componentId".to_string(), "Missing componentId (required to derive tag from version)".to_string())
    );
    assert_eq!(version_tag("1.2.3"), "v1.2.3");
}

#[test]
fn changelog_is_shown_only_when_asked_for_itself() {
    let own = ChangelogArgs { show_self: true, command: None };
    assert!(is_show_markdown(&own));
    assert_eq!(run_markdown(&own, "# Changes").unwrap(), ("# Changes".to_string(), 0));
    let bare = ChangelogArgs { show_self: false, command: None };
    assert!(!is_show_markdown(&bare));
    match run_markdown(&bare, "# Changes") {
        Err(Error::InvalidArgument { field, message, tried, .. }) => {
            assert_eq!(field, "command");
            assert_eq!(
                message,
                "No subcommand provided. Use a subcommand (add, init) or --self to view Homeboy's changelog"
            );
            assert_eq!(
                tried,
                Some(strings(&[
                    "homeboy changelog add <component_id> <message>",
                    "homeboy changelog init <component_id>",
                    "homeboy changelog --self"
                ]))
            );
        }
        other => panic!("expected a refusal, got {:?}", other),
    }
    let adding = ChangelogArgs {
        show_self: true,
        command: Some(ChangelogCommand::Add { cwd: false, json: None, component_id: None, message: None }),
    };
    assert!(!is_show_markdown(&adding));
    assert_eq!(
        argument_message(run_markdown(&adding, "x")).1,
        "Markdown output is only supported for 'changelog --self'"
    );
    assert_eq!(show_markdown("text"), ("text".to_string(), 0));
    let (shown, code) = show_json("text");
    assert_eq!((shown.topic_label.as_str(), shown.content.as_str(), code), ("changelog", "text", 0));
    assert_eq!(add_mode(true, &Some("{}".into())), AddMode::Cwd);
    assert_eq!(add_mode(false, &Some("{}".into())), AddMode::Bulk);
    assert_eq!(add_mode(false, &None), AddMode::Component);
}

#[test]
fn logs_need_the_terminal_only_to_follow() {
    let follow = LogsArgs { command: LogsCommand::Show { project_id: "p".into(), path: "l".into(), tail: 100, follow: true } };
    assert!(is_interactive(&follow));
    let show = LogsArgs { command: LogsCommand::Show { project_id: "p".into(), path: "l".into(), tail: 100, follow: false } };
    assert!(!is_interactive(&show));
    assert!(!is_interactive(&LogsArgs { command: LogsCommand::List { project_id: "p".into() } }));
    let (out, code) = homeboy::commands::logs::list("p", Vec::new());
    assert_eq!((out.command.as_str(), out.project_id.as_str(), code), ("logs.list", "p", 0));
    assert!(out.entries.is_some() && out.log.is_none());
    let (out, code) = homeboy::commands::logs::followed("p", 130);
    assert_eq!((out.command.as_str(), code), ("logs.follow", 130));
    let (out, _) = homeboy::commands::logs::show("p", LogContent { path: "/l".into(), lines: 3, content: "x".into() });
    assert_eq!(out.command, "logs.show");
    assert_eq!(out.log.unwrap().lines, 3);
    let (out, _) = homeboy::commands::logs::clear("p", "/l".into());
    assert_eq!(out.cleared_path.as_deref(), Some("/l"));
    let (out, _) = homeboy::commands::logs::search("p", LogSearchResult { path: "/l".into(), pattern: "x".into(), matches: Vec::new(), match_count: 0 });
    assert_eq!(out.command, "logs.search");
    assert!(out.search_result.is_some());
}

#[test]
fn file_reports_say_what_was_done() {
    let (out, code) = homeboy::commands::file::list("p", ListResult { base_path: Some("/srv".into()), path: "/srv/a".into(), entries: Vec::new() });
    assert_eq!(code, 0);
    assert_eq!((out.command.as_str(), out.project_id.as_str()), ("file.list", "p"));
    assert_eq!(out.path.as_deref(), Some("/srv/a"));
    assert!(out.entries.is_some() && out.success && out.exit_code == 0);
    let (out, _) = homeboy::commands::file::write("p", WriteResult { base_path: None, path: "/a".into(), bytes_written: 9 });
    assert_eq!((out.command.as_str(), out.bytes_written), ("file.write", Some(9)));
    let (out, _) = homeboy::commands::file::rename("p", RenameResult { base_path: None, old_path: "/a".into(), new_path: "/b".into() });
    assert_eq!(out.command, "file.rename");
    assert_eq!((out.old_path.as_deref(), out.new_path.as_deref(), out.path), (Some("/a"), Some("/b"), None));
    let (out, _) = homeboy::commands::file::find("p", FindResult { base_path: None, path: "/a".into(), pattern: None, matches: strings(&["/a/1", "/a/2"]) });
    assert_eq!((out.command.as_str(), out.match_count), ("file.find", 2));
    let (out, _) = homeboy::commands::file::grep("p", GrepResult { base_path: None, path: "/a".into(), pattern: "x".into(), matches: Vec::new() });
    assert_eq!((out.command.as_str(), out.match_count), ("file.grep", 0));
    let wrapped = FileCommandOutput::Grep(out);
    assert!(matches!(wrapped, FileCommandOutput::Grep(_)));
}

#[test]
fn version_reports_and_commits() {
    assert_eq!(BumpType::Patch.as_str(), "patch");
    assert_eq!(BumpType::Minor.as_str(), "minor");
    assert_eq!(BumpType::Major.as_str(), "major");
    let targets = vec![
        VersionTargetInfo { file: "a".into(), pattern: "p".into(), full_path: "/src/a".into(), match_count: 1 },
        VersionTargetInfo { file: "b".into(), pattern: "p".into(), full_path: "/src/b".into(), match_count: 2 },
    ];
    assert_eq!(files_to_stage(&targets, "/src/CHANGELOG.md"), strings(&["/src/a", "/src/b", "/src/CHANGELOG.md"]));
    assert_eq!(files_to_stage(&targets, ""), strings(&["/src/a", "/src/b"]));
    assert_eq!(commit_message("1.2.3"), "release: v1.2.3");
    assert_eq!(non_empty(String::new()), None);
    assert_eq!(non_empty("x".to_string()), Some("x".to_string()));
    assert_eq!(resolved_id(true, Some("shop".into())), None);
    assert_eq!(resolved_id(false, Some("shop".into())), Some("shop".to_string()));
    let (out, code) = show_version_output("shop", "1.2.3".into(), targets);
    assert_eq!(code, 0);
    assert_eq!((out.command.as_str(), out.component_id.as_deref(), out.version.as_str()), ("version.show", Some("shop"), "1.2.3"));
    assert_eq!(out.targets.len(), 2);
}

#[test]
fn sign_in_asks_for_what_was_not_given() {
    let prompts = login_prompts(&None, &Some("pw".into()));
    assert!(prompts.identifier && !prompts.password);
    let sent = credentials("me@example.com".into(), "secret".into());
    let pairs: Vec<(&str, &str)> = sent.iter().map(|c| (c.name.as_str(), c.value.as_str())).collect();
    assert_eq!(pairs, vec![("identifier", "me@example.com"), ("password", "secret")]);
    let (out, code) = run_login(login("shop"));
    assert_eq!(code, 0);
    assert!(matches!(out, AuthOutput::Login { project_id, success: true } if project_id == "shop"));
    let (out, _) = run_logout("shop");
    assert!(matches!(out, AuthOutput::Logout { project_id } if project_id == "shop"));
    let (out, _) = run_status(status("shop", false));
    assert!(matches!(out, AuthOutput::Status { project_id, authenticated: false } if project_id == "shop"));
}

#[test]
fn ssh_connects_or_lists() {
    let args = SshArgs { id: Some("web".into()), project: None, server: None, command: None, subcommand: None };
    assert!(!lists_servers(&args));
    let args = SshArgs { id: None, project: None, server: None, command: None, subcommand: Some(SshSubcommand::List) };
    assert!(lists_servers(&args));
    let (out, code) = connected("project".into(), Some("shop".into()), "web".into(), Some("uptime".into()), 255);
    assert_eq!(code, 255);
    match out {
        SshOutput::Connect(c) => {
            assert_eq!((c.resolved_type.as_str(), c.project_id.as_deref(), c.server_id.as_str(), c.command.as_deref()), ("project", Some("shop"), "web", Some("uptime")));
        }
        other => panic!("expected a connection, got {:?}", other),
    }
    let (out, code) = listed(vec![server("a")]);
    assert_eq!(code, 0);
    assert!(matches!(out, SshOutput::List(l) if l.servers.len() == 1));
}

#[test]
fn doctor_fails_on_errors_and_on_warnings_where_asked() {
    let summary = |errors, warnings| DoctorSummary { errors, warnings };
    assert_eq!(exit_code(summary(0, 0), FailOn::Error), 0);
    assert_eq!(exit_code(summary(0, 3), FailOn::Error), 0);
    assert_eq!(exit_code(summary(0, 3), FailOn::Warning), 1);
    assert_eq!(exit_code(summary(1, 0), FailOn::Error), 1);
    assert_eq!(exit_code(summary(1, 0), FailOn::Warning), 1);
    assert_eq!(exit_code(summary(0, 0), FailOn::Warning), 0);
    let args = DoctorArgs { scope: ScopeArg::All, file: Some("x.json".into()), fail_on: FailOnArg::Error };
    assert!(scans_file(&args));
}

fn context(matched: &[&str], contained: &[&str], managed: bool) -> ContextOutput {
    ContextOutput {
        managed,
        matched_components: strings(matched),
        contained_components: strings(contained),
        suggestion: None,
    }
}

fn project(id: &str, components: &[&str], server: Option<&str>) -> Project {
    Project { id: id.into(), domain: Some(format!("{}.example", id)), component_ids: strings(components), server_id: server.map(|s| s.to_string()) }
}

fn module_info(id: &str, executable: bool) -> ModuleInfo {
    ModuleInfo {
        id: id.into(),
        name: id.to_uppercase(),
        version: "1.0.0".into(),
        description: Some("First line\nSecond line".into()),
        executable,
        compatible: true,
        ready: false,
        linked: true,
    }
}

#[test]
fn init_shows_what_the_directory_has_to_do_with() {
    let mut shop = component("shop");
    shop.modules = Some(strings(&["wordpress"]));
    let components = vec![shop, component("blog"), component("api")];
    let projects = vec![
        project("one", &["blog"], Some("web")),
        project("two", &["shop", "api"], Some("db")),
        project("three", &["api"], None),
    ];
    let servers = vec![server("web"), server("db"), server("spare")];
    let modules = vec![module_info("wordpress", true), module_info("github", true), module_info("platform", false)];
    let (out, code) = run_json(InitArgs { all: false }, context(&["shop"], &["api"], true), components, projects, servers, &modules);
    assert_eq!(code, 0);
    assert_eq!(out.command, "init");
    let ids = |c: &Vec<Component>| c.iter().map(|c| c.id.clone()).collect::<Vec<_>>();
    assert_eq!(ids(&out.components), strings(&["shop", "api"]));
    let project_ids: Vec<&str> = out.projects.iter().map(|p| p.id.as_str()).collect();
    assert_eq!(project_ids, vec!["two", "three"]);
    assert_eq!(out.projects[0].domain.as_deref(), Some("two.example"));
    let server_ids: Vec<&str> = out.servers.iter().map(|s| s.id.as_str()).collect();
    assert_eq!(server_ids, vec!["db"]);
    let module_ids: Vec<&str> = out.modules.iter().map(|m| m.id.as_str()).collect();
    assert_eq!(module_ids, vec!["wordpress", "platform"]);
    assert_eq!(out.modules[0].description, "First line");
    assert_eq!(out.modules[0].runtime, "executable");
    assert_eq!(out.modules[1].runtime, "platform");
    assert_eq!(
        out.next_steps,
        strings(&[
            "Read README.md for repo-specific guidance.",
            "Run `homeboy docs documentation/index` for Homeboy documentation.",
            "Run `homeboy docs commands/commands-index` to browse available commands.",
            "Run `homeboy context` to inspect local config state.",
            "Run `homeboy component show <id>` to inspect a component.",
        ])
    );
}

#[test]
fn init_shows_everything_where_asked_or_where_nothing_matches() {
    let everything = || {
        (
            vec![component("shop"), component("blog")],
            vec![project("one", &["blog"], Some("web"))],
            vec![server("web"), server("spare")],
            vec![module_info("github", true)],
        )
    };
    let (c, p, s, m) = everything();
    let (out, _) = run_json(InitArgs { all: true }, context(&["shop"], &[], false), c, p, s, &m);
    assert_eq!((out.components.len(), out.projects.len(), out.servers.len(), out.modules.len()), (2, 1, 2, 1));
    let (c, p, s, m) = everything();
    let mut ctx = context(&[], &[], false);
    ctx.suggestion = Some("run homeboy component create".into());
    let (out, _) = run_json(InitArgs { all: false }, ctx, c, p, s, &m);
    assert_eq!((out.components.len(), out.projects.len(), out.servers.len(), out.modules.len()), (2, 1, 2, 1));
    assert_eq!(out.next_steps.len(), 6);
    assert_eq!(out.next_steps[5], "Suggestion: run homeboy component create");
    assert!(out.next_steps[3].starts_with("Create a project with"));
    assert!(out.next_steps[4].starts_with("Create a component with"));
}

#[test]
fn init_pieces_work_alone() {
    let args = InitArgs { all: false };
    let ctx = context(&["a"], &["b"], false);
    let kept = shown_components(&args, &ctx, vec![component("a"), component("c"), component("b")]);
    assert_eq!(kept.iter().map(|c| c.id.as_str()).collect::<Vec<_>>(), vec!["a", "b"]);
    let kept = shown_projects(&args, &ctx, vec![project("p", &["x"], None), project("q", &["x", "b"], None)]);
    assert_eq!(kept.len(), 1);
    assert_eq!(kept[0].id, "q");
    let kept = shown_servers(false, &vec![project("p", &[], Some("s2"))], vec![server("s1"), server("s2")]);
    assert_eq!(kept[0].id, "s2");
    assert_eq!(kept.len(), 1);
    assert_eq!(
        next_steps(&ctx, true),
        strings(&[
            "Read README.md for repo-specific guidance.",
            "Run `homeboy docs documentation/index` for Homeboy documentation.",
            "Run `homeboy docs commands/commands-index` to browse available commands.",
            "Run `homeboy component show <id>` for a contained component.",
        ])
    );
    assert_eq!(next_steps(&context(&[], &[], true), false).len(), 4);
    let mut bare = module_info("m", false);
    bare.description = None;
    assert_eq!(module_entry(&bare).description, "");
    bare.description = Some(String::new());
    assert_eq!(module_entry(&bare).description, "");
    bare.description = Some("\nsecond".into());
    assert_eq!(module_entry(&bare).description, "");
}

fn git_output(exit_code: i32) -> homeboy::commands::git::GitOutput {
    homeboy::commands::git::GitOutput {
        component_id: "shop".to_string(),
        path: "/src/shop".to_string(),
        action: "status".to_string(),
        success: exit_code == 0,
        exit_code,
        stdout: String::new(),
        stderr: String::new(),
    }
}

#[test]
fn git_reports_end_as_git_did() {
    let (report, code) = homeboy::commands::git::single(git_output(3));
    assert_eq!(code, 3);
    assert!(matches!(report, homeboy::commands::git::GitCommandOutput::Single(o) if o.exit_code == 3));

    let outcomes = vec![
        homeboy::json::ItemOutcome { id: "a".to_string(), result: Some(git_output(0)), error: None },
        homeboy::json::ItemOutcome { id: "b".to_string(), result: None, error: Some("no such component".to_string()) },
        homeboy::json::ItemOutcome { id: "c".to_string(), result: Some(git_output(1)), error: None },
    ];
    let all = homeboy::json::bulk_result("git.status", outcomes);
    assert_eq!(all.action, "git.status");
    assert_eq!((all.summary.total, all.summary.succeeded, all.summary.failed), (3, 2, 1));
    let (report, code) = homeboy::commands::git::bulk(all);
    assert_eq!(code, 1);
    assert!(matches!(report, homeboy::commands::git::GitCommandOutput::Bulk(b) if b.results.len() == 3));

    let none: Vec<homeboy::json::ItemOutcome<homeboy::commands::git::GitOutput>> = Vec::new();
    let empty = homeboy::json::bulk_result("git.pull", none);
    assert_eq!((empty.summary.total, empty.summary.succeeded, empty.summary.failed), (0, 0, 0));
    assert_eq!(homeboy::commands::git::bulk(empty).1, 0);
}

#[test]
fn doctor_arguments_name_scopes_and_kinds() {
    assert_eq!(scope_to_core(ScopeArg::All), DoctorScope::All);
    assert_eq!(scope_to_core(ScopeArg::App), DoctorScope::App);
    assert_eq!(scope_to_core(ScopeArg::Projects), DoctorScope::Projects);
    assert_eq!(scope_to_core(ScopeArg::Servers), DoctorScope::Servers);
    assert_eq!(scope_to_core(ScopeArg::Components), DoctorScope::Components);
    assert_eq!(scope_to_core(ScopeArg::Modules), DoctorScope::Modules);
    assert_eq!(fail_to_core(FailOnArg::Error), FailOn::Error);
    assert_eq!(fail_to_core(FailOnArg::Warning), FailOn::Warning);

    let args = DoctorArgs { scope: ScopeArg::App, file: None, fail_on: FailOnArg::Warning };
    let (output, code) = homeboy::commands::doctor::run(
        &args,
        "{}".to_string(),
        DoctorSummary { errors: 0, warnings: 2 },
    );
    assert_eq!((output.report.as_str(), code), ("{}", 1));
    let args = DoctorArgs { scope: ScopeArg::App, file: None, fail_on: FailOnArg::Error };
    let (_, code) = homeboy::commands::doctor::run(
        &args,
        "{}".to_string(),
        DoctorSummary { errors: 0, warnings: 2 },
    );
    assert_eq!(code, 0);
}

#[test]
fn key_commands_report_what_was_done() {
    let server = || ServerConfig {
        id: "web".to_string(),
        name: "Web".to_string(),
        host: "example.com".to_string(),
        user: "deploy".to_string(),
        port: 22,
        identity_file: Some("/keys/web".to_string()),
    };
    let (out, code) = homeboy::commands::server::key_generate("web", server(), "ssh-ed25519 AAA".to_string(), "/keys/web".to_string());
    assert_eq!(code, 0);
    assert_eq!(out.command, "server.key.generate");
    assert_eq!(out.server_id.as_deref(), Some("web"));
    assert_eq!(out.updated, Some(vec!["identity_file".to_string()]));
    let key = out.key.unwrap();
    assert_eq!(key.action, "generate");
    assert_eq!(key.server_id, "web");
    assert_eq!(key.public_key.as_deref(), Some("ssh-ed25519 AAA"));
    assert_eq!(key.identity_file.as_deref(), Some("/keys/web"));
    assert_eq!(key.imported, None);

    let (out, _) = homeboy::commands::server::key_show("web", "ssh-ed25519 AAA".to_string());
    assert_eq!(out.command, "server.key.show");
    assert!(out.server.is_none());
    assert_eq!(out.updated, None);
    let key = out.key.unwrap();
    assert_eq!((key.public_key.as_deref(), key.identity_file, key.imported), (Some("ssh-ed25519 AAA"), None, None));

    let (out, _) = homeboy::commands::server::key_import(
        "web",
        server(),
        "pub".to_string(),
        "/keys/web".to_string(),
        "/home/me/id".to_string(),
    );
    assert_eq!(out.command, "server.key.import");
    assert_eq!(out.key.unwrap().imported.as_deref(), Some("/home/me/id"));

    let (out, _) = homeboy::commands::server::key_use("web", server());
    assert_eq!(out.command, "server.key.use");
    assert_eq!(out.updated, Some(vec!["identity_file".to_string()]));
    let key = out.key.unwrap();
    assert_eq!((key.public_key, key.identity_file.as_deref()), (None, Some("/keys/web")));

    let (out, _) = homeboy::commands::server::key_unset("web", server());
    assert_eq!(out.command, "server.key.unset");
    assert!(out.server.is_some());
    let key = out.key.unwrap();
    assert_eq!((key.action.as_str(), key.public_key, key.identity_file), ("unset", None, None));
}
