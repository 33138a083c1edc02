use workmux::plan::{Command, Execution, OnFailure, Outcome, Plan, Step};

fn command(name: &str) -> Command {
    Command::new("zellij", &["action", name])
}

fn three_steps() -> Plan<u8> {
    Plan {
        steps: vec![
            Step::must_or(command("one"), "first failed"),
            Step::attempt(command("two")),
            Step::must(command("three")),
        ],
        result: 7,
    }
}

/// The last argument of the commands that are handed out, with these replies.
fn carry_out(plan: Plan<u8>, replies: &[bool]) -> (Vec<String>, Outcome<u8>) {
    let mut execution = Execution::new(plan);
    let mut seen: Vec<String> = Vec::new();
    for reply in replies {
        match execution.next() {
            Some(Step::Run { command, on_failure: _ }) => {
                seen.push(command.args[command.args.len() - 1].clone());
            }
            Some(_) => seen.push("other".to_string()),
            None => {}
        }
        execution.report(*reply);
    }
    (seen, execution.finish())
}

#[test]
fn command_holds_program_and_arguments() {
    let c = Command::new("sh", &["-c", "exit"]);
    assert_eq!(c.program, "sh");
    assert_eq!(c.args, vec!["-c", "exit"]);
}

#[test]
fn plan_completes_when_mandatory_steps_succeed() {
    let (seen, outcome) = carry_out(three_steps(), &[true, false, true]);
    assert_eq!(seen, vec!["one", "two", "three"]);
    assert!(matches!(outcome, Outcome::Completed(7)));
}

#[test]
fn plan_stops_at_first_failure() {
    let (seen, outcome) = carry_out(three_steps(), &[false, true, true]);
    assert_eq!(seen, vec!["one"]);
    match outcome {
        Outcome::Failed(Some(context)) => assert_eq!(context, "first failed"),
        _ => panic!("not failed"),
    }
    let (seen, outcome) = carry_out(three_steps(), &[true, true, false, true]);
    assert_eq!(seen, vec!["one", "two", "three"]);
    assert!(matches!(outcome, Outcome::Failed(None)));
}

#[test]
fn plan_is_unfinished_in_between() {
    let (seen, outcome) = carry_out(three_steps(), &[true]);
    assert_eq!(seen, vec!["one"]);
    assert!(matches!(outcome, Outcome::Unfinished));
}

#[test]
fn empty_plan_is_complete() {
    let plan: Plan<u8> = Plan { steps: vec![], result: 1 };
    let execution = Execution::new(plan);
    assert!(execution.next().is_none());
    assert!(matches!(execution.finish(), Outcome::Completed(1)));
}

#[test]
fn sleep_cannot_fail() {
    let plan: Plan<u8> = Plan { steps: vec![Step::Sleep { millis: 5 }], result: 1 };
    let mut execution = Execution::new(plan);
    assert!(matches!(execution.next(), Some(Step::Sleep { millis: 5 })));
    execution.report(false);
    assert!(matches!(execution.finish(), Outcome::Completed(1)));
}

#[test]
fn spawn_can_fail() {
    let step = Step::spawn_or(command("x"), "no spawn");
    assert!(matches!(&step, Step::Spawn { command: _, on_failure: OnFailure::Abort(Some(_)) }));
    let plan: Plan<u8> = Plan { steps: vec![step], result: 1 };
    let mut execution = Execution::new(plan);
    execution.report(false);
    match execution.finish() {
        Outcome::Failed(Some(context)) => assert_eq!(context, "no spawn"),
        _ => panic!("not failed"),
    }
}
