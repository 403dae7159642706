use smaragdine::console::{on_read, Action, Exit, Signal};
use smaragdine::interrupt::{ExitArmed, LineShadow};

fn shadow(line: &str) -> LineShadow {
    let mut shadow = LineShadow::new();
    shadow.record(line);
    shadow
}

#[test]
fn a_submitted_line_runs() {
    let mut armed = ExitArmed::new();
    let action: Action<()> = on_read(Ok(Signal::Success("echo hi".to_owned())), &shadow(""), &mut armed);
    assert!(matches!(action, Action::Run(ref line) if line == "echo hi"), "{action:?}");
}

#[test]
fn a_blank_line_runs_nothing_but_still_checks_for_an_exit() {
    let mut armed = ExitArmed::new();
    let action: Action<()> = on_read(Ok(Signal::Success("   ".to_owned())), &shadow(""), &mut armed);
    assert!(matches!(action, Action::Check), "{action:?}");
}

#[test]
fn submitting_takes_the_exit_hint_down() {
    let mut armed = ExitArmed::new();
    armed.arm();
    let _: Action<()> = on_read(Ok(Signal::Success("quit".to_owned())), &shadow(""), &mut armed);
    assert!(!armed.is_armed());
}

#[test]
fn two_ctrl_c_on_an_empty_line_end_the_console() {
    let mut armed = ExitArmed::new();
    let first: Action<()> = on_read(Ok(Signal::CtrlC), &shadow(""), &mut armed);
    assert!(matches!(first, Action::Wait), "{first:?}");
    assert!(armed.is_armed());
    let second: Action<()> = on_read(Ok(Signal::CtrlC), &shadow(""), &mut armed);
    assert!(matches!(second, Action::Stop(Exit::Interrupted)), "{second:?}");
}

#[test]
fn ctrl_c_on_a_line_with_text_only_clears_it() {
    let mut armed = ExitArmed::new();
    let action: Action<()> = on_read(Ok(Signal::CtrlC), &shadow("echo"), &mut armed);
    assert!(matches!(action, Action::Wait), "{action:?}");
    assert!(!armed.is_armed());
}

#[test]
fn ctrl_d_ends_the_console() {
    let mut armed = ExitArmed::new();
    let action: Action<()> = on_read(Ok(Signal::CtrlD), &shadow("echo"), &mut armed);
    assert!(matches!(action, Action::Stop(Exit::Interrupted)), "{action:?}");
}

#[test]
fn a_wake_up_checks_for_an_exit() {
    let mut armed = ExitArmed::new();
    let action: Action<()> = on_read(Ok(Signal::Other), &shadow(""), &mut armed);
    assert!(matches!(action, Action::Check), "{action:?}");
}

#[test]
fn a_read_error_ends_the_console_as_failed() {
    let mut armed = ExitArmed::new();
    let error = std::io::Error::new(std::io::ErrorKind::Other, "tty gone");
    let action: Action<()> = on_read(Err(error), &shadow(""), &mut armed);
    match action {
        Action::Stop(Exit::Failed(e)) => assert_eq!(e.to_string(), "tty gone"),
        other => panic!("{other:?}"),
    }
}
