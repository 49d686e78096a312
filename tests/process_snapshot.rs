use choomd::process_snapshot::ProcessSnapshot;

fn snapshot(command_line: Vec<&str>) -> ProcessSnapshot {
    ProcessSnapshot {
        pid: 1,
        uid: 1,
        command_line: command_line.into_iter().map(|s| s.to_string()).collect(),
        current_working_directory: "/".to_string(),
        oom_score: 1,
        oom_score_adjust: 1,
    }
}

#[test]
fn test_command_line_getters() {
    let ok_process_snapshot = ProcessSnapshot {
        pid: 1,
        uid: 1,
        command_line: vec!["/bin/echo".to_string(), "hello".to_string()],
        current_working_directory: "/".to_string(),
        oom_score: 1,
        oom_score_adjust: 1,
    };

    assert_eq!(
        ok_process_snapshot.command_line_file_path(),
        Some("/bin/echo".to_string())
    );

    assert_eq!(
        ok_process_snapshot.command_line_file_name(),
        Some("echo".to_string())
    );

    assert_eq!(
        ok_process_snapshot.command_line_arguments(),
        vec!["hello".to_string()]
    );

    let setproctitle_process_snapshot = ProcessSnapshot {
        pid: 1,
        uid: 1,
        command_line: vec!["I control my process title".to_string()],
        current_working_directory: "/".to_string(),
        oom_score: 1,
        oom_score_adjust: 1,
    };

    assert_eq!(
        setproctitle_process_snapshot.command_line_file_path(),
        Some("I control my process title".to_string())
    );

    assert_eq!(
        setproctitle_process_snapshot.command_line_file_name(),
        Some("I control my process title".to_string())
    );

    assert_eq!(
        setproctitle_process_snapshot.command_line_arguments(),
        Vec::<String>::new()
    );
}

#[test]
fn empty_command_line_has_no_path_name_or_arguments() {
    let p = snapshot(vec![]);
    assert_eq!(p.command_line_file_path(), None);
    assert_eq!(p.command_line_file_name(), None);
    assert_eq!(p.command_line_arguments(), Vec::<String>::new());
}

#[test]
fn file_name_follows_unix_path_rules() {
    let cases: Vec<(&str, Option<&str>)> = vec![
        ("/usr/lib/", Some("lib")),
        ("/usr/lib/.", Some("lib")),
        ("a//b", Some("b")),
        ("./run", Some("run")),
        ("/", None),
        ("", None),
        (".", None),
        ("..", None),
        ("/usr/..", None),
        ("/opt/héllo wörld", Some("héllo wörld")),
    ];
    for (path, expected) in cases {
        let p = snapshot(vec![path, "x"]);
        assert_eq!(p.command_line_file_name(), expected.map(|s| s.to_string()), "{}", path);
    }
}

#[test]
fn arguments_keep_order_after_first_element() {
    let p = snapshot(vec!["/usr/bin/python3", "train.py", "--epochs", "3"]);
    assert_eq!(
        p.command_line_arguments(),
        vec!["train.py".to_string(), "--epochs".to_string(), "3".to_string()]
    );
}

#[test]
fn readings_that_failed_get_fallbacks() {
    let p = ProcessSnapshot::from_readings(7, None, None, None, None, None);
    assert_eq!(p.pid, 7);
    assert_eq!(p.uid, 0);
    assert!(p.command_line.is_empty());
    assert_eq!(p.current_working_directory, "/");
    assert_eq!(p.oom_score, 0);
    assert_eq!(p.oom_score_adjust, -1000);

    let q = ProcessSnapshot::from_readings(
        8,
        Some(1000),
        Some(vec!["/bin/sh".to_string()]),
        Some("/tmp".to_string()),
        Some(42),
        Some(300),
    );
    assert_eq!(q.uid, 1000);
    assert_eq!(q.command_line, vec!["/bin/sh".to_string()]);
    assert_eq!(q.current_working_directory, "/tmp");
    assert_eq!(q.oom_score, 42);
    assert_eq!(q.oom_score_adjust, 300);
}
