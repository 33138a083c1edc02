use workmux::multiplexer::types::{Environment, Inquiry, Reply, SplitDirection, Wait};
use workmux::multiplexer::zellij::ZellijBackend;
use workmux::plan::{Command, Execution, Outcome, Plan, Step};

fn session() -> Environment {
    Environment {
        session: Some("0".to_string()),
        session_name: None,
        pane_id: None,
        tab_name: Some("home".to_string()),
        shell: None,
    }
}

fn strings(list: &[&str]) -> Vec<String> {
    list.iter().map(|s| s.to_string()).collect()
}

/// What the commands of a plan type into the focused pane.
fn typed<T>(plan: &Plan<T>) -> String {
    let mut all = String::new();
    for step in &plan.steps {
        if let Step::Run { command, on_failure: _ } = step {
            match command.args[1].as_str() {
                "write-chars" => all.push_str(&command.args[2]),
                "write" => all.push(command.args[2].parse::<u8>().unwrap() as char),
                _ => {}
            }
        }
    }
    all
}

/// The words that a shell reads.
fn shell_words(input: &str) -> Vec<String> {
    let mut words: Vec<String> = Vec::new();
    let mut current: Option<String> = None;
    let mut quoted = false;
    let mut escaped = false;
    for c in input.chars() {
        if !quoted && !escaped && (c == ' ' || c == '\t' || c == '\n') {
            words.extend(current.take());
            continue;
        }
        let word = current.get_or_insert_with(String::new);
        if escaped {
            word.push(c);
            escaped = false;
        } else if c == '\'' {
            quoted = !quoted;
        } else if c == '\\' && !quoted {
            escaped = true;
        } else {
            word.push(c);
        }
    }
    words.extend(current);
    words
}

fn script(plan: &Plan<()>) -> String {
    match &plan.steps[0] {
        Step::Spawn { command, on_failure: _ } => command.args[1].clone(),
        _ => panic!("nothing is started"),
    }
}

#[test]
fn agent_gets_the_whole_command() {
    let b = ZellijBackend::new();
    for command in ["!ls", "ls", "!", "", "!é!"] {
        for delay in [true, false] {
            assert_eq!(typed(&b.send_keys_to_agent("p", command, delay)), format!("{}\r", command));
        }
    }
}

#[test]
fn every_pasted_line_is_entered() {
    assert_eq!(typed(&ZellijBackend::new().paste_multiline("p", "a\nb\r\n\nc")), "a\rb\r\rc\r");
}

#[test]
fn directory_is_entered_before_the_command() {
    let b = ZellijBackend::new();
    let plan = b.respawn_pane(&session(), "p", Some("/a'b"), Some("make")).unwrap();
    assert_eq!(typed(&plan), "cd '/a'\\''b'\rmake\r");
    assert_eq!(shell_words("cd '/a'\\''b'"), strings(&["cd", "/a'b"]));
}

#[test]
fn keys_type_their_characters() {
    let b = ZellijBackend::new();
    assert_eq!(typed(&b.send_key("p", "Enter")), "\r");
    assert_eq!(typed(&b.send_key("p", "Escape")), "\u{1b}");
    assert_eq!(typed(&b.send_key("p", "Tab")), "\t");
    assert_eq!(typed(&b.send_key("p", "q")), "q");
}

#[test]
fn close_script_names_the_tab() {
    let name = "it's; rm -rf '$HOME' && x";
    let plan = ZellijBackend::new().schedule_window_close(name, 3);
    assert_eq!(
        shell_words(&script(&plan)),
        strings(&["sleep", "3", "&&", "zellij", "action", "go-to-tab-name", name, "&&", "zellij", "action", "close-tab"])
    );
}

#[test]
fn cleanup_script_names_the_tabs() {
    let plan = ZellijBackend::new().schedule_cleanup_and_close("a 'b'", Some("c'"), "echo 'd e'", "0.5");
    assert_eq!(
        shell_words(&script(&plan)),
        strings(&[
            "trap", "", "HUP;", "sleep", "0.5;", "zellij", "action", "go-to-tab-name", "c'", ">/dev/null", "2>&1;",
            "zellij", "action", "go-to-tab-name", "a 'b'", ">/dev/null", "2>&1;", "zellij", "action", "close-tab",
            ">/dev/null", "2>&1;", "echo", "d e",
        ])
    );
}

#[test]
fn window_questions_agree() {
    let b = ZellijBackend::new();
    let env = session();
    let reply = Reply::Output("a\nb\na\n".to_string());
    let all = match b.get_all_window_names(&env, Some(&reply)) {
        Inquiry::Done(Ok(all)) => all,
        _ => panic!("no answer"),
    };
    for name in ["a", "b", "c", ""] {
        let window = strings(&[name]);
        let exists = matches!(b.window_exists_by_full_name(&env, name, Some(&reply)), Inquiry::Done(Ok(true)));
        assert_eq!(all.contains(&window[0]), exists);
        match b.filter_active_windows(&env, &window, Some(&reply)) {
            Inquiry::Done(Ok(active)) => assert_eq!(!active.is_empty(), exists),
            _ => panic!("no answer"),
        }
        let over = matches!(b.wait_until_windows_closed(&env, &window, Some(&reply)), Wait::Done(Ok(())));
        assert_eq!(over, !exists);
    }
}

#[test]
fn listings_are_read_back() {
    let names = strings(&["home", "", "wm fix", "ü"]);
    let listing: String = names.iter().map(|n| format!("{}\n", n)).collect();
    assert_eq!(ZellijBackend::query_tab_names(&listing), names);

    let clients = ZellijBackend::list_clients("HEADER\n1\tterminal_1   vim  x \r\n\u{a0}2 plugin_4\n");
    assert_eq!(clients.len(), 2);
    assert_eq!(clients[0].pane_id, "terminal_1");
    assert_eq!(clients[0].running_command, "vim x");
    assert_eq!(clients[1].pane_id, "plugin_4");
    assert_eq!(clients[1].running_command, "");
}

fn arguments(command: &Command) -> String {
    command.args.join(" ")
}

#[test]
fn creating_a_window_goes_back() {
    let plan = ZellijBackend::new().create_window(&session(), "", "x", Some("/")).unwrap();
    let mut execution = Execution::new(plan);
    execution.report(true);
    match execution.next() {
        Some(Step::Run { command, on_failure: _ }) => assert_eq!(arguments(command), "action go-to-tab-name home"),
        _ => panic!("no way back"),
    }
    execution.report(false);
    match execution.finish() {
        Outcome::Completed(name) => assert_eq!(name, "x"),
        _ => panic!("not created"),
    }
}

#[test]
fn failed_first_steps_end_the_plan() {
    let b = ZellijBackend::new();
    let mut execution = Execution::new(b.kill_window("x"));
    execution.report(false);
    assert!(execution.next().is_none());
    match execution.finish() {
        Outcome::Failed(context) => assert_eq!(context, Some("Failed to switch to tab for closing".to_string())),
        _ => panic!("not failed"),
    }
    let plan = b.split_pane(&session(), "p", &SplitDirection::Vertical, Some("/"), None, None, Some("x"), 1).unwrap();
    let mut execution = Execution::new(plan);
    execution.report(false);
    assert!(execution.next().is_none());
    match execution.finish() {
        Outcome::Failed(context) => assert_eq!(context, Some("Failed to split pane".to_string())),
        _ => panic!("not failed"),
    }
}
