use homeboy::error::Error;
use homeboy::json::{
    is_json_array, is_json_input, normalize_pointer, parse_index, read_json_spec,
    split_parent_pointer, unescape_token, JsonSource,
};
use homeboy::logs::{
    clear, clear_command, follow, list as list_logs, parse_grep_output as parse_log_grep, search,
    search_command, show, show_command, PinnedLog,
};
use homeboy::remote_files::{
    delete, delete_command, find, find_command, grep, grep_command, list, list_command,
    parse_find_output, parse_grep_output, parse_ls_output, read, read_command, rename,
    rename_command, strip_last_newline, write_command,
};
use homeboy::ssh::{
    expanded_identity_file, finished, not_started, CommandOutput, ServerConfig, SshClient,
};

fn ok(stdout: &str) -> CommandOutput {
    CommandOutput { stdout: stdout.to_string(), stderr: String::new(), success: true, exit_code: 0 }
}

fn failed(stderr: &str) -> CommandOutput {
    CommandOutput { stdout: String::new(), stderr: stderr.to_string(), success: false, exit_code: 2 }
}

fn other_message<T: std::fmt::Debug>(r: Result<T, Error>) -> String {
    match r {
        Err(Error::Other { message }) => message,
        other => panic!("expected an error, got {:?}", other),
    }
}

const LS: &str = "total 24\n\
drwxr-xr-x  4 www  www   4096 Jan  1 10:00 .\n\
drwxr-xr-x 12 root root  4096 Jan  1 09:00 ..\n\
-rw-r--r--  1 www  www    120 Jan  2 11:30 readme.txt\n\
drwxr-xr-x  2 www  www   4096 Jan  3 12:00 Uploads\n\
-rw-------  1 www  www      x Jan  4 13:00 My File.php\n\
lrwxrwxrwx  1 www  www      7 Jan  5 14:00 current -> rel/one\n\
drwx------  2 www  www   4096 Jan  6 15:00 cache\n\
\n\
too short line\n\
-rw-r--r--  1 www  www     12 Jan  7 16:00 Alpha.txt\n";

#[test]
fn listing_is_read_sorted_and_joined_to_the_directory() {
    let entries = parse_ls_output(LS, "/var/www");
    let names: Vec<&str> = entries.iter().map(|e| e.name.as_str()).collect();
    assert_eq!(
        names,
        vec!["cache", "Uploads", "Alpha.txt", "current -> rel/one", "My File.php", "readme.txt"]
    );
    assert_eq!(entries[0].path, "/var/www/cache");
    assert!(entries[0].is_directory);
    assert_eq!(entries[0].size, Some(4096));
    assert_eq!(entries[0].permissions, "rwx------");
    assert!(!entries[2].is_directory);
    assert_eq!(entries[2].size, Some(12));
    assert_eq!(entries[3].permissions, "rwxrwxrwx");
    assert_eq!(entries[4].size, None);
    assert_eq!(entries[4].path, "/var/www/My File.php");
    assert_eq!(parse_ls_output(LS, "/var/www/")[5].path, "/var/www/readme.txt");
    assert!(parse_ls_output("", "/x").is_empty());
    assert!(parse_ls_output("total 0\n", "/x").is_empty());
}

#[test]
fn files_are_listed_read_written_deleted_and_renamed() {
    assert_eq!(list_command(Some("/srv"), "logs dir").unwrap(), "ls -la '/srv/logs dir'");
    assert_eq!(read_command(None, "/etc/it's").unwrap(), "cat '/etc/it'\\''s'");
    assert_eq!(
        write_command(Some("/srv"), "a.txt", "one\ntwo").unwrap(),
        "cat > '/srv/a.txt' << 'HOMEBOYEOF'\none\ntwo\nHOMEBOYEOF"
    );
    assert_eq!(delete_command(Some("/srv"), "a", false).unwrap(), "rm -f '/srv/a'");
    assert_eq!(delete_command(Some("/srv"), "a", true).unwrap(), "rm -rf '/srv/a'");
    assert_eq!(rename_command(Some("/srv"), "a", "/tmp/b").unwrap(), "mv '/srv/a' '/tmp/b'");
    assert!(matches!(list_command(None, "relative"), Err(Error::MissingKey { .. })));
    assert!(matches!(rename_command(Some("/srv"), "a", " "), Err(Error::InvalidArgument { .. })));

    let listed = list(Some("/srv"), "www", &ok(LS)).unwrap();
    assert_eq!(listed.base_path.as_deref(), Some("/srv"));
    assert_eq!(listed.path, "/srv/www");
    assert_eq!(listed.entries.len(), 6);
    assert_eq!(listed.entries[0].path, "/srv/www/cache");
    assert_eq!(other_message(list(Some("/srv"), "www", &failed("no such dir"))), "LIST_FAILED: no such dir");

    let content = read(None, "/etc/hosts", ok("127.0.0.1 localhost\n")).unwrap();
    assert_eq!(content.base_path, None);
    assert_eq!(content.path, "/etc/hosts");
    assert_eq!(content.content, "127.0.0.1 localhost\n");
    assert_eq!(other_message(read(None, "/etc/hosts", failed("denied"))), "READ_FAILED: denied");

    let written = homeboy::remote_files::write(Some("/srv"), "a", "héllo", &ok("")).unwrap();
    assert_eq!(written.path, "/srv/a");
    assert_eq!(written.bytes_written, 6);
    assert_eq!(other_message(homeboy::remote_files::write(Some("/srv"), "a", "x", &failed("full"))), "WRITE_FAILED: full");

    let deleted = delete(Some("/srv"), "a", true, &ok("")).unwrap();
    assert!(deleted.recursive);
    assert_eq!(deleted.path, "/srv/a");
    assert_eq!(other_message(delete(Some("/srv"), "a", true, &failed("busy"))), "DELETE_FAILED: busy");

    let renamed = rename(Some("/srv"), "a", "b", &ok("")).unwrap();
    assert_eq!((renamed.old_path.as_str(), renamed.new_path.as_str()), ("/srv/a", "/srv/b"));
    assert_eq!(other_message(rename(Some("/srv"), "a", "b", &failed("gone"))), "RENAME_FAILED: gone");
    assert!(matches!(read(None, "x", ok("")), Err(Error::MissingKey { .. })));
}

#[test]
fn standard_input_loses_one_line_feed() {
    assert_eq!(strip_last_newline("text\n"), "text");
    assert_eq!(strip_last_newline("text\n\n"), "text\n");
    assert_eq!(strip_last_newline("text"), "text");
    assert_eq!(strip_last_newline(""), "");
    assert_eq!(strip_last_newline("a\r\n"), "a\r");
}

#[test]
fn files_are_found_by_name_kind_and_depth() {
    assert_eq!(
        find_command(Some("/srv"), "www", Some("*.php"), Some("f"), Some(2)).unwrap(),
        "find '/srv/www' -maxdepth 2 -type f -name '*.php' 2>/dev/null | sort"
    );
    assert_eq!(
        find_command(Some("/srv"), "www", None, None, None).unwrap(),
        "find '/srv/www' 2>/dev/null | sort"
    );
    assert_eq!(
        find_command(None, "/", None, Some("l"), None).unwrap(),
        "find '/' -type l 2>/dev/null | sort"
    );
    for bad in ["x", "", "fd", "F"] {
        assert_eq!(
            other_message(find_command(Some("/srv"), "www", None, Some(bad), None)),
            "Invalid file type. Use 'f', 'd', or 'l'."
        );
    }
    assert!(matches!(
        find_command(None, "www", None, Some("x"), None),
        Err(Error::MissingKey { .. })
    ));
    assert_eq!(parse_find_output("/a\n\n/b c\n"), vec!["/a", "/b c"]);
    assert!(parse_find_output("\n\n").is_empty());
    let found = find(Some("/srv"), "www", Some("*.php"), &failed("ignored")).unwrap();
    assert!(found.matches.is_empty());
    let found = find(Some("/srv"), "www", Some("*.php"), &ok("/srv/www/a.php\n")).unwrap();
    assert_eq!(found.path, "/srv/www");
    assert_eq!(found.pattern.as_deref(), Some("*.php"));
    assert_eq!(found.matches, vec!["/srv/www/a.php"]);
}

#[test]
fn files_are_searched_with_grep() {
    assert_eq!(
        grep_command(Some("/srv"), "www", "TODO it", Some("*.php"), Some(3), true).unwrap(),
        "grep -rni 'TODO it' '/srv/www' --include='*.php' --max-depth=3 2>/dev/null"
    );
    assert_eq!(
        grep_command(Some("/srv"), "www", "x", None, None, false).unwrap(),
        "grep -rn 'x' '/srv/www' 2>/dev/null"
    );
    assert_eq!(other_message(grep_command(Some("/srv"), "www", "  ", None, None, false)), "Search pattern required");
    assert!(matches!(
        grep_command(None, "www", "  ", None, None, false),
        Err(Error::MissingKey { .. })
    ));
    let matches = parse_grep_output(
        "/a.php:12:  // TODO: fix\n/b.php:x:skipped\nno colons here\n\n/c:3:a:b:c\n/d:4\n:5:\n",
    );
    let read: Vec<(&str, u32, &str)> =
        matches.iter().map(|m| (m.file.as_str(), m.line, m.content.as_str())).collect();
    assert_eq!(read, vec![("/a.php", 12, "  // TODO: fix"), ("/c", 3, "a:b:c"), ("", 5, "")]);
    let found = grep(Some("/srv"), "www", "TODO", &ok("/a:1:TODO\n")).unwrap();
    assert_eq!(found.pattern, "TODO");
    assert_eq!(found.path, "/srv/www");
    assert_eq!(found.matches.len(), 1);
    assert_eq!(other_message(grep(Some("/srv"), "www", "", &ok(""))), "Search pattern required");
}

#[test]
fn logs_are_listed_shown_followed_and_cleared() {
    let pinned = vec![
        PinnedLog { path: "logs/error.log".into(), label: Some("Errors".into()), tail_lines: 50 },
        PinnedLog { path: "/var/log/syslog".into(), label: None, tail_lines: 10 },
    ];
    let entries = list_logs(&pinned);
    assert_eq!(entries.len(), 2);
    assert_eq!(entries[0].path, "logs/error.log");
    assert_eq!(entries[0].label.as_deref(), Some("Errors"));
    assert_eq!(entries[0].tail_lines, 50);
    assert_eq!(entries[1].label, None);

    assert_eq!(show_command(Some("/srv"), "logs/error.log", 100).unwrap(), "tail -n 100 '/srv/logs/error.log'");
    assert_eq!(show_command(None, "/var/log/x", 0).unwrap(), "tail -n 0 '/var/log/x'");
    let shown = show(Some("/srv"), "e.log", 5, ok("line\n")).unwrap();
    assert_eq!(shown.path, "/srv/e.log");
    assert_eq!(shown.lines, 5);
    assert_eq!(shown.content, "line\n");
    match show(Some("/srv"), "e.log", 5, failed("no file")) {
        Err(e) => {
            assert_eq!(e.message(), "Remote command failed: no file");
            match e {
                Error::Remote { command, exit_code, stderr } => {
                    assert_eq!(command, "tail -n 5 '/srv/e.log'");
                    assert_eq!(exit_code, 2);
                    assert_eq!(stderr, "no file");
                }
                other => panic!("expected a remote failure, got {:?}", other),
            }
        }
        Ok(_) => panic!("expected a failure"),
    }
    assert!(matches!(show(None, "e.log", 5, ok("")), Err(Error::MissingKey { .. })));

    assert_eq!(follow(Some("/srv"), "e.log").unwrap(), "tail -f '/srv/e.log'");
    assert!(follow(Some("/srv"), "").is_err());

    assert_eq!(clear_command(Some("/srv"), "e.log").unwrap(), ": > '/srv/e.log'");
    assert_eq!(clear(Some("/srv"), "e.log", ok("")).unwrap(), "/srv/e.log");
    assert!(matches!(
        clear(Some("/srv"), "e.log", failed("ro")),
        Err(Error::Remote { command, .. }) if command == ": > '/srv/e.log'"
    ));
}

#[test]
fn logs_are_searched_whole_or_at_their_end() {
    assert_eq!(
        search_command(Some("/srv"), "e.log", "fatal error", false, None, None).unwrap(),
        "grep -n 'fatal error' '/srv/e.log'"
    );
    assert_eq!(
        search_command(Some("/srv"), "e.log", "x", true, Some(200), Some(2)).unwrap(),
        "tail -n 200 '/srv/e.log' | grep -ni -C 2 'x'"
    );
    assert_eq!(
        search_command(Some("/srv"), "e.log", "x", false, None, Some(0)).unwrap(),
        "grep -n -C 0 'x' '/srv/e.log'"
    );
    let found = parse_log_grep("12:PHP Fatal: boom\n13-context line\n--\nx:not a number\n14:\n\n15:a:b\n7-8:9\n");
    let read: Vec<(u32, &str)> = found.iter().map(|m| (m.line_number, m.content.as_str())).collect();
    assert_eq!(read, vec![(12, "PHP Fatal: boom"), (13, "context line"), (14, ""), (15, "a:b")]);
    let result = search(Some("/srv"), "e.log", "boom", &failed("")).unwrap();
    assert_eq!(result.match_count, 0);
    let result = search(Some("/srv"), "e.log", "boom", &ok("3:boom\n9:boom again\n")).unwrap();
    assert_eq!(result.path, "/srv/e.log");
    assert_eq!(result.pattern, "boom");
    assert_eq!(result.match_count, 2);
    assert_eq!(result.matches[1].line_number, 9);
}

#[test]
fn json_input_is_told_from_ids_by_its_first_character() {
    assert!(is_json_input("{\"a\":1}"));
    assert!(is_json_input(" \n\t{"));
    assert!(!is_json_input("my-component"));
    assert!(!is_json_input("[1]"));
    assert!(!is_json_input(""));
    assert!(is_json_array("  [1, 2]"));
    assert!(!is_json_array("{}"));
    assert!(!is_json_array("a["));
}

#[test]
fn json_specs_name_their_source() {
    assert!(matches!(read_json_spec("-"), Ok(JsonSource::Stdin)));
    assert!(matches!(read_json_spec("  -\n"), Ok(JsonSource::Stdin)));
    assert!(matches!(read_json_spec("@file.json"), Ok(JsonSource::File(p)) if p == "file.json"));
    assert!(matches!(read_json_spec("@ a b "), Ok(JsonSource::File(p)) if p == " a b "));
    assert!(matches!(read_json_spec("{\"a\":1}"), Ok(JsonSource::Inline(t)) if t == "{\"a\":1}"));
    assert!(matches!(read_json_spec(" @x"), Ok(JsonSource::Inline(t)) if t == " @x"));
    assert!(matches!(read_json_spec(""), Ok(JsonSource::Inline(t)) if t.is_empty()));
    for bad in ["@", "@  "] {
        match read_json_spec(bad) {
            Err(Error::InvalidArgument { field, message, .. }) => {
                assert_eq!(field, "json");
                assert_eq!(message, "Invalid JSON spec '@' (missing file path)");
            }
            other => panic!("expected a refusal, got {:?}", other),
        }
    }
}

#[test]
fn json_pointers_are_checked_and_split() {
    assert_eq!(normalize_pointer("").unwrap(), "");
    assert_eq!(normalize_pointer("/a/b").unwrap(), "/a/b");
    assert_eq!(normalize_pointer("//").unwrap(), "//");
    match normalize_pointer("/") {
        Err(Error::InvalidArgument { field, message, .. }) => {
            assert_eq!(field, "pointer");
            assert_eq!(message, "Invalid JSON pointer '/'");
        }
        other => panic!("expected a refusal, got {:?}", other),
    }
    match normalize_pointer("a/b") {
        Err(Error::InvalidArgument { message, .. }) => {
            assert_eq!(message, "JSON pointer must start with '/': a/b")
        }
        other => panic!("expected a refusal, got {:?}", other),
    }
    assert_eq!(split_parent_pointer(""), None);
    assert_eq!(split_parent_pointer("/a"), Some((String::new(), "a".to_string())));
    assert_eq!(split_parent_pointer("/a/b~1c"), Some(("/a".to_string(), "b/c".to_string())));
    assert_eq!(split_parent_pointer("/a/"), Some(("/a".to_string(), String::new())));
    assert_eq!(split_parent_pointer("plain"), Some((String::new(), "plain".to_string())));
    assert_eq!(unescape_token("a~1b~0c"), "a/b~c");
    assert_eq!(unescape_token("~01"), "~1");
    assert_eq!(unescape_token("~10"), "/0");
    assert_eq!(unescape_token("~~11"), "~/1");
    assert_eq!(parse_index("12").unwrap(), 12);
    assert_eq!(parse_index("+3").unwrap(), 3);
    for bad in ["", "-1", "1.5", "one", "99999999999999999999999"] {
        match parse_index(bad) {
            Err(Error::InvalidArgument { field, message, given, .. }) => {
                assert_eq!(field, "arrayIndex");
                assert_eq!(message, "Invalid array index token");
                assert_eq!(given.as_deref(), Some(bad));
            }
            other => panic!("expected a refusal, got {:?}", other),
        }
    }
}

fn server(port: u16, identity_file: Option<&str>) -> ServerConfig {
    ServerConfig {
        id: "cloudways".to_string(),
        name: "Cloudways".to_string(),
        host: "example.com".to_string(),
        user: "user".to_string(),
        port,
        identity_file: identity_file.map(|s| s.to_string()),
    }
}

#[test]
fn ssh_is_told_the_key_the_port_and_the_destination() {
    let plain = SshClient::from_server(&server(22, None), "cloudways", None).unwrap();
    assert_eq!(plain.execute_args("ls -la"), vec!["user@example.com", "ls -la"]);
    assert_eq!(plain.interactive_args(None), vec!["user@example.com"]);
    assert_eq!(plain.copy_args("a.zip", "/srv/a.zip"), vec!["a.zip", "user@example.com:/srv/a.zip"]);
    let keyed = SshClient::from_server(
        &server(2222, Some("/keys/id")),
        "cloudways",
        Some(("/keys/id".to_string(), true)),
    )
    .unwrap();
    assert_eq!(keyed.host, "example.com");
    assert_eq!(keyed.user, "user");
    assert_eq!(keyed.port, 2222);
    assert_eq!(keyed.identity_file.as_deref(), Some("/keys/id"));
    assert_eq!(
        keyed.execute_args("uptime"),
        vec!["-i", "/keys/id", "-p", "2222", "user@example.com", "uptime"]
    );
    assert_eq!(
        keyed.interactive_args(Some("tail -f x")),
        vec!["-i", "/keys/id", "-p", "2222", "user@example.com", "tail -f x"]
    );
    assert_eq!(
        keyed.copy_args("a", "b"),
        vec!["-i", "/keys/id", "-P", "2222", "a", "user@example.com:b"]
    );
    match SshClient::from_server(&server(22, Some("~/id")), "cloudways", Some(("/home/u/id".to_string(), false))) {
        Err(Error::Ssh { message }) => assert_eq!(
            message,
            "SSH identity file not found for server 'cloudways': /home/u/id"
        ),
        other => panic!("expected a refusal, got {:?}", other),
    }
}

#[test]
fn identity_file_is_expanded_where_it_starts_with_a_tilde() {
    assert_eq!(expanded_identity_file(&server(22, None)), None);
    assert_eq!(expanded_identity_file(&server(22, Some(""))), None);
    assert_eq!(
        expanded_identity_file(&server(22, Some("/keys/id_rsa"))),
        Some("/keys/id_rsa".to_string())
    );
    assert_eq!(
        expanded_identity_file(&server(22, Some("~other/id"))),
        Some("~other/id".to_string())
    );
    let expanded = expanded_identity_file(&server(22, Some("~/.ssh/id_rsa"))).unwrap();
    assert!(expanded.ends_with("/.ssh/id_rsa"));
    assert_eq!(expanded, shellexpand::tilde("~/.ssh/id_rsa").to_string());
}

#[test]
fn command_output_reports_how_a_command_ended() {
    let done = finished("out".to_string(), "err".to_string(), true, Some(0));
    assert_eq!((done.stdout.as_str(), done.stderr.as_str(), done.success, done.exit_code), ("out", "err", true, 0));
    assert_eq!(finished(String::new(), String::new(), false, None).exit_code, -1);
    assert_eq!(finished(String::new(), String::new(), false, Some(7)).exit_code, 7);
    let none = not_started("SSH error: ", "no route");
    assert_eq!(none.stderr, "SSH error: no route");
    assert!(none.stdout.is_empty() && !none.success);
    assert_eq!(none.exit_code, -1);
}
