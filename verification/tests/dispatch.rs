use yurf::dispatch::{action_chain, Dispatch, Handler};
use yurf::entity::{Commands, DesktopInfo, Item, TaskItem};
use yurf::error::SessionError;

fn task() -> Item {
    Item::Task(TaskItem { name: "t".into(), show_if: None, command: "true".into() })
}

fn entry() -> Item {
    Item::Desktop(DesktopInfo {
        id: "e".into(),
        name: None,
        no_display: false,
        command_line: Some("e".into()),
    })
}

#[test]
fn chain_of_each_command() {
    assert_eq!(action_chain(Commands::Stdin, false), [Handler::Print]);
    assert_eq!(action_chain(Commands::Stdin, true), [Handler::Copy, Handler::Print]);
    assert_eq!(action_chain(Commands::Task, false), [Handler::RecordUsage, Handler::RunTask]);
    assert_eq!(
        action_chain(Commands::Task, true),
        [Handler::RecordUsage, Handler::Copy, Handler::RunTask]
    );
    assert_eq!(action_chain(Commands::Launch, false), [Handler::RecordUsage, Handler::Launch]);
    assert_eq!(
        action_chain(Commands::Launch, true),
        [Handler::RecordUsage, Handler::Copy, Handler::Launch]
    );
}

#[test]
fn handlers_apply_to_their_variants() {
    let calc = Item::Calc("4".into());
    let line = Item::Stdin("l".into());
    for item in [&calc, &line, &task(), &entry()] {
        assert!(Handler::RecordUsage.applies_to(item));
        assert!(Handler::Copy.applies_to(item));
        assert!(Handler::Print.applies_to(item));
    }
    assert!(Handler::RunTask.applies_to(&task()));
    assert!(!Handler::RunTask.applies_to(&entry()));
    assert!(!Handler::RunTask.applies_to(&calc));
    assert!(Handler::Launch.applies_to(&entry()));
    assert!(!Handler::Launch.applies_to(&task()));
    assert!(!Handler::Launch.applies_to(&calc));
}

#[test]
fn handlers_run_in_order() {
    let mut run = Dispatch::new(action_chain(Commands::Launch, true));
    let item = entry();
    let mut ran = Vec::new();
    while let Some(handler) = run.due(&item) {
        ran.push(handler);
        run.succeeded();
    }
    assert_eq!(ran, [Handler::RecordUsage, Handler::Copy, Handler::Launch]);
    assert!(run.due(&item).is_none());
    assert!(run.outcome().is_ok());
}

#[test]
fn due_does_not_advance_by_itself() {
    let mut run = Dispatch::new(action_chain(Commands::Task, false));
    let item = task();
    assert_eq!(run.due(&item), Some(Handler::RecordUsage));
    assert_eq!(run.due(&item), Some(Handler::RecordUsage));
    run.succeeded();
    assert_eq!(run.due(&item), Some(Handler::RunTask));
}

#[test]
fn a_handler_without_projection_is_passed_over() {
    // a computed result selected in the launcher: nothing is started
    let mut run = Dispatch::new(action_chain(Commands::Launch, false));
    let item = Item::Calc("4".into());
    assert_eq!(run.due(&item), Some(Handler::RecordUsage));
    run.succeeded();
    assert_eq!(run.due(&item), None);
    assert!(run.outcome().is_ok());

    let mut middle = Dispatch::new(vec![Handler::RunTask, Handler::Launch, Handler::Print]);
    assert_eq!(middle.due(&item), Some(Handler::Print));
    middle.succeeded();
    assert_eq!(middle.due(&item), None);
    assert!(middle.outcome().is_ok());
}

#[test]
fn the_first_failure_ends_the_run() {
    let mut run = Dispatch::new(action_chain(Commands::Task, true));
    let item = task();
    assert_eq!(run.due(&item), Some(Handler::RecordUsage));
    run.succeeded();
    assert_eq!(run.due(&item), Some(Handler::Copy));
    run.failed("failed to copy".to_string());
    assert_eq!(run.due(&item), None);
    // reports after the end change nothing
    run.succeeded();
    run.failed("later".to_string());
    assert_eq!(run.due(&item), None);
    match run.outcome() {
        Err(SessionError::ActionFailed { position, handler, cause }) => {
            assert_eq!(position, 1);
            assert_eq!(handler, Handler::Copy);
            assert_eq!(cause, "failed to copy");
        }
        other => panic!("expected a failure, got {other:?}"),
    }
}

#[test]
fn the_position_of_a_failure_counts_passed_handlers() {
    let mut run = Dispatch::new(vec![Handler::RunTask, Handler::Launch]);
    let item = entry();
    assert_eq!(run.due(&item), Some(Handler::Launch));
    run.failed("failed to start the selected app".to_string());
    let error = run.outcome().unwrap_err();
    assert!(error.is_action_failed());
    assert!(!error.is_out_of_range());
    match error {
        SessionError::ActionFailed { position, handler, cause } => {
            assert_eq!(position, 1);
            assert_eq!(handler, Handler::Launch);
            assert_eq!(cause, "failed to start the selected app");
        }
        other => panic!("unexpected {other:?}"),
    }
}

#[test]
fn an_empty_chain_succeeds() {
    let mut run = Dispatch::new(Vec::new());
    assert_eq!(run.due(&task()), None);
    run.succeeded();
    // no handler was due, so there is nothing that can have failed
    run.failed("nothing ran".to_string());
    assert!(run.outcome().is_ok());
}
