use smaragdine::console::{after_round, Exit};
use smaragdine::source::ExitRequest;

#[derive(Debug, Clone, PartialEq, Eq)]
enum Bye {
    Stop(i32),
    Restart,
}

#[test]
fn the_default_exit_reason_has_a_quit_shortcut() {
    let mut request: ExitRequest<()> = ExitRequest::new();
    request.request_exit(());
    assert_eq!(request.take_exit(), Some(()));
}

#[test]
fn the_first_exit_request_wins() {
    let mut request = ExitRequest::new();
    request.request_exit(Bye::Restart);
    request.request_exit(Bye::Stop(1));
    assert_eq!(request.take_exit(), Some(Bye::Restart));
}

#[test]
fn requesting_an_exit_raises_the_interrupt() {
    let mut request = ExitRequest::new();
    assert!(!request.interrupt_raised());
    request.request_exit(Bye::Stop(0));
    assert!(request.interrupt_raised());
}

#[test]
fn taking_the_exit_empties_it() {
    let mut request = ExitRequest::new();
    assert_eq!(request.take_exit(), None);

    request.request_exit(Bye::Stop(2));
    assert!(request.exit_requested());
    assert_eq!(request.take_exit(), Some(Bye::Stop(2)));
    assert!(!request.exit_requested());
}

#[test]
fn after_a_take_the_next_request_counts_again() {
    let mut request = ExitRequest::new();
    request.request_exit(Bye::Restart);
    assert_eq!(request.take_exit(), Some(Bye::Restart));
    request.request_exit(Bye::Stop(3));
    assert_eq!(request.take_exit(), Some(Bye::Stop(3)));
}

#[test]
fn the_loop_reads_the_exit_once() {
    let mut request = ExitRequest::new();
    assert!(after_round(&mut request).is_none());
    request.request_exit(Bye::Stop(7));
    match after_round(&mut request) {
        Some(Exit::Quit(reason)) => assert_eq!(reason, Bye::Stop(7)),
        other => panic!("expected a quit, got {other:?}"),
    }
    assert!(after_round(&mut request).is_none());
}
