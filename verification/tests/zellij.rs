use workmux::multiplexer::types::{
    BackendError, CaptureAction, CaptureEvent, Environment, Inquiry, Reply, SplitDirection, Wait,
};
use workmux::multiplexer::zellij::ZellijBackend;
use workmux::plan::{Command, OnFailure, Plan, Step};

fn outside() -> Environment {
    Environment { session: None, session_name: None, pane_id: None, tab_name: None, shell: None }
}

fn inside() -> Environment {
    Environment {
        session: Some("0".to_string()),
        session_name: Some("main".to_string()),
        pane_id: Some("3".to_string()),
        tab_name: Some("home".to_string()),
        shell: Some("/bin/zsh".to_string()),
    }
}

fn output(text: &str) -> Reply<String> {
    Reply::Output(text.to_string())
}

fn argv(command: &Command) -> Vec<String> {
    let mut all = vec![command.program.clone()];
    all.extend(command.args.iter().cloned());
    all
}

/// A step as one line: how it is run, its arguments, and what its failure means.
fn show(step: &Step) -> String {
    let (kind, command, on_failure) = match step {
        Step::Run { command, on_failure } => ("run", command, on_failure),
        Step::Spawn { command, on_failure } => ("spawn", command, on_failure),
        Step::Sleep { millis } => return format!("sleep {}", millis),
    };
    let end = match on_failure {
        OnFailure::Abort(Some(context)) => format!("or {}", context),
        OnFailure::Abort(None) => "or fail".to_string(),
        OnFailure::Ignore => "or not".to_string(),
    };
    format!("{} [{}] {}", kind, argv(command).join("|"), end)
}

fn steps<T>(plan: &Plan<T>) -> Vec<String> {
    plan.steps.iter().map(|s| show(s)).collect()
}

fn names(list: &[&str]) -> Vec<String> {
    list.iter().map(|s| s.to_string()).collect()
}

#[test]
fn backend_has_a_name() {
    assert_eq!(ZellijBackend::new().name(), "zellij");
    assert_eq!(ZellijBackend::default().name(), "zellij");
}

#[test]
fn environment_is_read() {
    let b = ZellijBackend::new();
    assert!(ZellijBackend::is_inside_session(&inside()));
    assert!(!ZellijBackend::is_inside_session(&outside()));
    assert_eq!(b.current_pane_id(&inside()), Some("terminal_3".to_string()));
    assert_eq!(b.active_pane_id(&inside()), b.current_pane_id(&inside()));
    assert_eq!(b.current_pane_id(&outside()), None);
    assert_eq!(b.instance_id(&inside()), "main");
    assert_eq!(b.instance_id(&outside()), "default");
    assert_eq!(b.current_window_name(&inside()), Some("home".to_string()));
    assert_eq!(b.current_window_name(&outside()), None);
    assert_eq!(b.get_default_shell(&inside()), "/bin/zsh");
    assert_eq!(b.get_default_shell(&outside()), "/bin/sh");
    assert_eq!(ZellijBackend::session_name(&inside()), Some("main".to_string()));
}

#[test]
fn tab_names_are_read() {
    assert_eq!(ZellijBackend::query_tab_names("home\n wm-a \r\nwm b\n"), names(&["home", "wm-a", "wm b"]));
    assert_eq!(ZellijBackend::query_tab_names(""), names(&[]));
    assert_eq!(ZellijBackend::query_tab_names("a\n\nb"), names(&["a", "", "b"]));
}

#[test]
fn clients_are_read() {
    let clients = ZellijBackend::list_clients(
        "CLIENT_ID ZELLIJ_PANE_ID RUNNING_COMMAND\n1 terminal_3 vim file.txt\n2   plugin_2\n3\n\n  4 terminal_9   a   b  c \n",
    );
    let seen: Vec<(String, String)> =
        clients.into_iter().map(|c| (c.pane_id, c.running_command)).collect();
    assert_eq!(
        seen,
        vec![
            ("terminal_3".to_string(), "vim file.txt".to_string()),
            ("plugin_2".to_string(), "".to_string()),
            ("terminal_9".to_string(), "a b c".to_string()),
        ]
    );
    assert!(ZellijBackend::list_clients("").is_empty());
    assert!(ZellijBackend::list_clients("1 terminal_3 vim").is_empty());
}

#[test]
fn running_is_checked() {
    let b = ZellijBackend::new();
    assert!(matches!(b.is_running(&inside(), None), Inquiry::Done(Ok(true))));
    match b.is_running(&outside(), None) {
        Inquiry::Ask(c) => assert_eq!(argv(&c), names(&["zellij", "action", "dump-screen", "/dev/null"])),
        _ => panic!("not asked"),
    }
    assert!(matches!(b.is_running(&outside(), Some(&Reply::Output(false))), Inquiry::Done(Ok(false))));
    assert!(matches!(b.is_running(&outside(), Some(&Reply::Output(true))), Inquiry::Done(Ok(true))));
    assert!(matches!(
        b.is_running(&outside(), Some(&Reply::Failed)),
        Inquiry::Done(Err(BackendError::CommandFailed))
    ));
}

#[test]
fn window_is_created() {
    let b = ZellijBackend::new();
    let plan = b.create_window(&inside(), "wm-", "fix", Some("/tmp/a b")).unwrap();
    assert_eq!(plan.result, "wm-fix");
    assert_eq!(
        steps(&plan),
        names(&[
            "run [zellij|action|new-tab|--layout|default|--name|wm-fix|--cwd|/tmp/a b] or Failed to create zellij tab 'wm-fix'",
            "run [zellij|action|go-to-tab-name|home] or not",
        ])
    );
    let plan = b.create_window(&outside(), "", "x", Some("/")).unwrap();
    assert_eq!(steps(&plan).len(), 1);
    let refused = b.create_window(&inside(), "wm-", "fix", None);
    assert!(matches!(refused, Err(BackendError::NonUtf8Path)));
    assert_eq!(BackendError::NonUtf8Path.message(), Some("Path contains non-UTF8 characters"));
    assert_eq!(BackendError::CommandFailed.message(), None);
}

#[test]
fn window_is_killed() {
    assert_eq!(
        steps(&ZellijBackend::new().kill_window("wm-a")),
        names(&[
            "run [zellij|action|go-to-tab-name|wm-a] or Failed to switch to tab for closing",
            "run [zellij|action|close-tab] or Failed to close zellij tab",
        ])
    );
}

#[test]
fn window_close_is_scheduled() {
    assert_eq!(
        steps(&ZellijBackend::new().schedule_window_close("it's", 12)),
        names(&[
            "spawn [sh|-c|sleep 12 && zellij action go-to-tab-name 'it'\\''s' && zellij action close-tab] or Failed to spawn delayed close",
        ])
    );
}

#[test]
fn window_is_selected() {
    assert_eq!(
        steps(&ZellijBackend::new().select_window("wm-", "a")),
        names(&["run [zellij|action|go-to-tab-name|wm-a] or Failed to select zellij tab"])
    );
}

#[test]
fn windows_are_looked_up() {
    let b = ZellijBackend::new();
    let env = inside();
    match b.window_exists(&env, "wm-", "a", None) {
        Inquiry::Ask(c) => assert_eq!(argv(&c), names(&["zellij", "action", "query-tab-names"])),
        _ => panic!("not asked"),
    }
    let reply = output("home\nwm-a\n");
    assert!(matches!(b.window_exists(&env, "wm-", "a", Some(&reply)), Inquiry::Done(Ok(true))));
    assert!(matches!(b.window_exists(&env, "wm-", "b", Some(&reply)), Inquiry::Done(Ok(false))));
    assert!(matches!(
        b.window_exists_by_full_name(&env, "home", Some(&reply)),
        Inquiry::Done(Ok(true))
    ));
    assert!(matches!(
        b.window_exists_by_full_name(&env, "hom", Some(&reply)),
        Inquiry::Done(Ok(false))
    ));
    assert!(matches!(
        b.window_exists_by_full_name(&env, "home", Some(&Reply::Failed)),
        Inquiry::Done(Err(BackendError::CommandFailed))
    ));
    assert!(matches!(
        b.window_exists_by_full_name(&outside(), "home", None),
        Inquiry::Done(Ok(false))
    ));
}

#[test]
fn windows_are_listed_once() {
    let b = ZellijBackend::new();
    match b.get_all_window_names(&inside(), Some(&output("a\nb\na\n"))) {
        Inquiry::Done(Ok(all)) => assert_eq!(all, names(&["a", "b"])),
        _ => panic!("no answer"),
    }
    match b.get_all_window_names(&outside(), None) {
        Inquiry::Done(Ok(all)) => assert!(all.is_empty()),
        _ => panic!("no answer"),
    }
    assert!(matches!(b.get_all_window_names(&inside(), None), Inquiry::Ask(_)));
    assert!(matches!(
        b.get_all_window_names(&inside(), Some(&Reply::Failed)),
        Inquiry::Done(Err(BackendError::CommandFailed))
    ));
}

#[test]
fn active_windows_are_filtered() {
    let b = ZellijBackend::new();
    let windows = names(&["x", "a", "b", "a"]);
    match b.filter_active_windows(&inside(), &windows, Some(&output("b\na\n"))) {
        Inquiry::Done(Ok(active)) => assert_eq!(active, names(&["a", "b", "a"])),
        _ => panic!("no answer"),
    }
    match b.filter_active_windows(&outside(), &windows, None) {
        Inquiry::Done(Ok(active)) => assert!(active.is_empty()),
        _ => panic!("no answer"),
    }
    assert!(matches!(b.filter_active_windows(&inside(), &windows, None), Inquiry::Ask(_)));
    assert!(matches!(
        b.filter_active_windows(&inside(), &windows, Some(&Reply::Failed)),
        Inquiry::Done(Err(BackendError::CommandFailed))
    ));
}

#[test]
fn window_order_is_unknown() {
    let b = ZellijBackend::new();
    assert_eq!(b.find_last_window_with_prefix("wm-"), None);
    assert_eq!(b.find_last_window_with_base_handle("wm-", "a"), None);
}

#[test]
fn closing_is_waited_for() {
    let b = ZellijBackend::new();
    let windows = names(&["a", "b"]);
    assert!(matches!(b.wait_until_windows_closed(&inside(), &windows, None), Wait::Ask(_)));
    assert!(matches!(
        b.wait_until_windows_closed(&inside(), &windows, Some(&output("home\nb"))),
        Wait::Sleep { millis: 100 }
    ));
    assert!(matches!(
        b.wait_until_windows_closed(&inside(), &windows, Some(&output("home"))),
        Wait::Done(Ok(()))
    ));
    assert!(matches!(
        b.wait_until_windows_closed(&inside(), &windows, Some(&Reply::Failed)),
        Wait::Done(Err(BackendError::CommandFailed))
    ));
    assert!(matches!(b.wait_until_windows_closed(&outside(), &windows, None), Wait::Done(Ok(()))));
    assert!(matches!(
        b.wait_until_windows_closed(&inside(), &[], Some(&output("home"))),
        Wait::Done(Ok(()))
    ));
}

#[test]
fn unsupported_requests_do_nothing() {
    let b = ZellijBackend::new();
    assert!(b.select_pane("terminal_1").steps.is_empty());
    assert!(b.switch_to_pane("terminal_1").steps.is_empty());
    assert!(b.set_status("terminal_1", "x", true).steps.is_empty());
    assert!(b.clear_status("terminal_1").steps.is_empty());
    assert!(b.ensure_status_format("terminal_1").steps.is_empty());
}

#[test]
fn pane_is_respawned() {
    let b = ZellijBackend::new();
    let plan = b.respawn_pane(&inside(), "p", Some("/tmp/it's"), Some("make")).unwrap();
    assert_eq!(plan.result, "terminal_3");
    assert_eq!(
        steps(&plan),
        names(&[
            "run [zellij|action|write-chars|cd '/tmp/it'\\''s'] or fail",
            "run [zellij|action|write|13] or fail",
            "run [zellij|action|write-chars|make] or fail",
            "run [zellij|action|write|13] or fail",
        ])
    );
    let plan = b.respawn_pane(&outside(), "p", Some("/"), None).unwrap();
    assert_eq!(plan.result, "terminal_0");
    assert_eq!(steps(&plan).len(), 2);
    assert!(matches!(b.respawn_pane(&inside(), "p", None, None), Err(BackendError::NonUtf8Path)));
}

#[test]
fn pane_is_captured() {
    let b = ZellijBackend::new();
    assert_eq!(ZellijBackend::capture_file_name(4210), "zellij_capture_4210");
    match b.capture_pane("p", 10, "/tmp/d", CaptureEvent::Start) {
        CaptureAction::Dump(c) => assert_eq!(argv(&c), names(&["zellij", "action", "dump-screen", "/tmp/d"])),
        _ => panic!("not dumped"),
    }
    assert!(matches!(b.capture_pane("p", 10, "/tmp/d", CaptureEvent::Dumped(true)), CaptureAction::ReadDump));
    assert!(matches!(b.capture_pane("p", 10, "/tmp/d", CaptureEvent::Dumped(false)), CaptureAction::GiveUp));
    match b.capture_pane("p", 10, "/tmp/d", CaptureEvent::Read(Some("text".to_string()))) {
        CaptureAction::RemoveDump(content) => assert_eq!(content, Some("text".to_string())),
        _ => panic!("not removed"),
    }
    assert!(matches!(
        b.capture_pane("p", 10, "/tmp/d", CaptureEvent::Read(None)),
        CaptureAction::RemoveDump(None)
    ));
}

#[test]
fn keys_are_sent() {
    assert_eq!(
        steps(&ZellijBackend::new().send_keys("p", "ls -l")),
        names(&[
            "run [zellij|action|write-chars|ls -l] or Failed to send keys",
            "run [zellij|action|write|13] or Failed to send Enter",
        ])
    );
}

#[test]
fn keys_are_sent_to_an_agent() {
    let b = ZellijBackend::new();
    assert_eq!(
        steps(&b.send_keys_to_agent("p", "!ls é", true)),
        names(&[
            "run [zellij|action|write-chars|!] or fail",
            "sleep 50",
            "run [zellij|action|write-chars|ls é] or fail",
            "run [zellij|action|write|13] or fail",
        ])
    );
    assert_eq!(steps(&b.send_keys_to_agent("p", "!ls", false)), steps(&b.send_keys("p", "!ls")));
    assert_eq!(steps(&b.send_keys_to_agent("p", "ls!", true)), steps(&b.send_keys("p", "ls!")));
    assert_eq!(steps(&b.send_keys_to_agent("p", "", true)), steps(&b.send_keys("p", "")));
}

#[test]
fn single_keys_are_sent() {
    let b = ZellijBackend::new();
    for (key, args) in [
        ("Enter", "write|13"),
        ("Escape", "write|27"),
        ("Tab", "write|9"),
        ("y", "write-chars|y"),
        ("enter", "write-chars|enter"),
    ] {
        assert_eq!(
            steps(&b.send_key("p", key)),
            vec![format!("run [zellij|action|{}] or Failed to send key", args)]
        );
    }
}

#[test]
fn lines_are_pasted() {
    let b = ZellijBackend::new();
    assert_eq!(
        steps(&b.paste_multiline("p", "a\r\n\nb")),
        names(&[
            "run [zellij|action|write-chars|a] or fail",
            "run [zellij|action|write|13] or fail",
            "run [zellij|action|write-chars|] or fail",
            "run [zellij|action|write|13] or fail",
            "run [zellij|action|write-chars|b] or fail",
            "run [zellij|action|write|13] or fail",
        ])
    );
    assert!(b.paste_multiline("p", "").steps.is_empty());
}

#[test]
fn pane_is_split() {
    let b = ZellijBackend::new();
    let plan = b
        .split_pane(&inside(), "p", &SplitDirection::Horizontal, Some("/w"), Some(10), Some(30), Some("vim"), 99)
        .unwrap();
    assert_eq!(plan.result, "terminal_3");
    assert_eq!(
        steps(&plan),
        names(&[
            "run [zellij|action|new-pane|--direction|right|--cwd|/w] or Failed to split pane",
            "run [zellij|action|write-chars|cd '/w'] or fail",
            "run [zellij|action|write|13] or fail",
            "run [zellij|action|write-chars|vim] or fail",
            "run [zellij|action|write|13] or fail",
        ])
    );
    let plan = b
        .split_pane(&outside(), "p", &SplitDirection::Vertical, Some("/w"), None, None, None, 99)
        .unwrap();
    assert_eq!(plan.result, "terminal_99");
    assert_eq!(steps(&plan)[0], "run [zellij|action|new-pane|--direction|down|--cwd|/w] or Failed to split pane");
    assert_eq!(steps(&plan).len(), 3);
    let refused = b.split_pane(&inside(), "p", &SplitDirection::Vertical, None, None, None, None, 1);
    assert!(matches!(refused, Err(BackendError::NonUtf8Path)));
}

#[test]
fn live_pane_is_described() {
    let b = ZellijBackend::new();
    match b.get_live_pane_info(&inside(), "terminal_3", None) {
        Inquiry::Ask(c) => assert_eq!(argv(&c), names(&["zellij", "action", "list-clients"])),
        _ => panic!("not asked"),
    }
    let reply = output("ID PANE COMMAND\n1 terminal_3 vim file.txt\n2 terminal_3 zsh\n3 terminal_4\n");
    match b.get_live_pane_info(&inside(), "terminal_3", Some(&reply)) {
        Inquiry::Done(Ok(Some(info))) => {
            assert_eq!(info.pid, 0);
            assert_eq!(info.current_command, "vim");
            assert_eq!(info.working_dir, "");
            assert_eq!(info.title, None);
            assert_eq!(info.session, Some("main".to_string()));
            assert_eq!(info.window, Some("home".to_string()));
        }
        _ => panic!("not found"),
    }
    match b.get_live_pane_info(&outside(), "terminal_4", Some(&reply)) {
        Inquiry::Done(Ok(Some(info))) => {
            assert_eq!(info.current_command, "");
            assert_eq!(info.session, None);
            assert_eq!(info.window, None);
        }
        _ => panic!("not found"),
    }
    assert!(matches!(
        b.get_live_pane_info(&inside(), "terminal_5", Some(&reply)),
        Inquiry::Done(Ok(None))
    ));
    assert!(matches!(
        b.get_live_pane_info(&inside(), "terminal_3", Some(&Reply::Failed)),
        Inquiry::Done(Err(BackendError::CommandFailed))
    ));
}

#[test]
fn cleanup_is_scheduled() {
    let b = ZellijBackend::new();
    assert_eq!(
        steps(&b.schedule_cleanup_and_close("it's", Some("home"), "rm -rf /tmp/x", "0.3")),
        names(&[
            "spawn [sh|-c|trap '' HUP; sleep 0.3; zellij action go-to-tab-name 'home' >/dev/null 2>&1; zellij action go-to-tab-name 'it'\\''s' >/dev/null 2>&1; zellij action close-tab >/dev/null 2>&1; rm -rf /tmp/x] or Failed to spawn cleanup process",
        ])
    );
    assert_eq!(
        steps(&b.schedule_cleanup_and_close("a", None, "", "1.0")),
        names(&[
            "spawn [sh|-c|trap '' HUP; sleep 1.0; zellij action go-to-tab-name 'a' >/dev/null 2>&1; zellij action close-tab >/dev/null 2>&1;] or Failed to spawn cleanup process",
        ])
    );
}
