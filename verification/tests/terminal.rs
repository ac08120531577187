use journal::terminal::{
    Action, AlternateScreen, Command, Directive, Event, Outcome, RawMode, SessionState,
    TerminalSession,
};

fn run(session: &mut TerminalSession, command: Command, outcomes: &[bool]) -> (Vec<Action>, Outcome) {
    let mut actions = Vec::new();
    let mut directive = session.request(command);
    let mut next = 0;
    loop {
        match directive {
            Directive::Finished(outcome) => return (actions, outcome),
            Directive::Perform(action) => {
                actions.push(action);
                let ok = outcomes[next];
                next += 1;
                directive = session.report(ok);
            }
        }
    }
}

fn active_session() -> TerminalSession {
    let mut session = TerminalSession::new();
    let (_, outcome) = run(&mut session, Command::Enter, &[true, true]);
    assert_eq!(outcome, Outcome::Completed);
    session
}

#[test]
fn a_new_session_is_inactive() {
    let session = TerminalSession::new();
    assert_eq!(session.state(), SessionState::Inactive);
    assert!(session.is_idle());
}

#[test]
fn the_tokens_nest() {
    let screen = AlternateScreen::enter();
    assert!(!screen.has_raw());
    let screen = screen.with_raw(RawMode::enable());
    assert!(screen.has_raw());
    let screen = screen.without_raw();
    assert!(!screen.has_raw());
}

#[test]
fn enter_acquires_the_screen_and_then_raw_input() {
    let mut session = TerminalSession::new();
    assert_eq!(
        session.request(Command::Enter),
        Directive::Perform(Action::EnterAlternateScreen)
    );
    assert!(!session.is_idle());
    assert_eq!(session.state(), SessionState::Inactive);
    assert_eq!(session.report(true), Directive::Perform(Action::EnableRawMode));
    assert_eq!(session.state(), SessionState::AlternateActive);
    assert_eq!(session.report(true), Directive::Finished(Outcome::Completed));
    assert_eq!(session.state(), SessionState::AlternateAndRawActive);
    assert!(session.is_idle());
}

#[test]
fn enter_then_teardown_restores_the_inactive_state_once() {
    let mut session = TerminalSession::new();
    let (entered, outcome) = run(&mut session, Command::Enter, &[true, true]);
    assert_eq!(entered, vec![Action::EnterAlternateScreen, Action::EnableRawMode]);
    assert_eq!(outcome, Outcome::Completed);
    let (torn, outcome) = run(&mut session, Command::Teardown, &[true, true]);
    assert_eq!(torn, vec![Action::DisableRawMode, Action::LeaveAlternateScreen]);
    assert_eq!(outcome, Outcome::Completed);
    assert_eq!(session.state(), SessionState::Inactive);
    assert!(session.is_idle());
    let (again, outcome) = run(&mut session, Command::Teardown, &[]);
    assert_eq!(again, Vec::new());
    assert_eq!(outcome, Outcome::Completed);
    assert_eq!(session.state(), SessionState::Inactive);
}

#[test]
fn enter_fails_when_the_screen_cannot_be_entered() {
    let mut session = TerminalSession::new();
    let (actions, outcome) = run(&mut session, Command::Enter, &[false]);
    assert_eq!(actions, vec![Action::EnterAlternateScreen]);
    assert_eq!(outcome, Outcome::Failed);
    assert_eq!(session.state(), SessionState::Inactive);
    assert!(session.is_idle());
}

#[test]
fn enter_rolls_back_when_raw_input_cannot_be_enabled() {
    for rollback in [true, false] {
        let mut session = TerminalSession::new();
        let (actions, outcome) = run(&mut session, Command::Enter, &[true, false, rollback]);
        assert_eq!(
            actions,
            vec![
                Action::EnterAlternateScreen,
                Action::EnableRawMode,
                Action::LeaveAlternateScreen
            ]
        );
        assert_eq!(outcome, Outcome::Failed);
        assert_eq!(session.state(), SessionState::Inactive);
        let (actions, _) = run(&mut session, Command::Teardown, &[]);
        assert_eq!(actions, Vec::new());
    }
}

#[test]
fn suspend_then_resume_returns_to_the_active_state() {
    let mut session = active_session();
    let (actions, outcome) = run(&mut session, Command::Suspend, &[true, true]);
    assert_eq!(actions, vec![Action::DisableRawMode, Action::LeaveAlternateScreen]);
    assert_eq!(outcome, Outcome::Completed);
    assert_eq!(session.state(), SessionState::Suspended);
    let (actions, outcome) = run(&mut session, Command::Resume, &[true, true, true]);
    assert_eq!(
        actions,
        vec![Action::EnterAlternateScreen, Action::EnableRawMode, Action::Redraw]
    );
    assert_eq!(outcome, Outcome::Completed);
    assert_eq!(session.state(), SessionState::AlternateAndRawActive);
    assert!(session.is_idle());
    let (actions, outcome) = run(&mut session, Command::Teardown, &[true, true]);
    assert_eq!(actions, vec![Action::DisableRawMode, Action::LeaveAlternateScreen]);
    assert_eq!(outcome, Outcome::Completed);
    assert_eq!(session.state(), SessionState::Inactive);
}

#[test]
fn a_failed_release_does_not_stop_a_suspension() {
    for outcomes in [[false, true], [true, false], [false, false]] {
        let mut session = active_session();
        let (actions, outcome) = run(&mut session, Command::Suspend, &outcomes);
        assert_eq!(actions, vec![Action::DisableRawMode, Action::LeaveAlternateScreen]);
        assert_eq!(outcome, Outcome::CompletedWithFaults);
        assert_eq!(session.state(), SessionState::Suspended);
        let (_, outcome) = run(&mut session, Command::Resume, &[true, true, true]);
        assert_eq!(outcome, Outcome::Completed);
        assert_eq!(session.state(), SessionState::AlternateAndRawActive);
    }
}

#[test]
fn a_failed_release_does_not_stop_a_teardown() {
    for outcomes in [[false, true], [true, false], [false, false]] {
        let mut session = active_session();
        let (actions, outcome) = run(&mut session, Command::Teardown, &outcomes);
        assert_eq!(actions, vec![Action::DisableRawMode, Action::LeaveAlternateScreen]);
        assert_eq!(outcome, Outcome::CompletedWithFaults);
        assert_eq!(session.state(), SessionState::Inactive);
        let (actions, outcome) = run(&mut session, Command::Teardown, &[]);
        assert_eq!(actions, Vec::new());
        assert_eq!(outcome, Outcome::Completed);
    }
}

#[test]
fn a_failed_resume_leaves_the_session_suspended() {
    let mut session = active_session();
    run(&mut session, Command::Suspend, &[true, true]);
    let (actions, outcome) = run(&mut session, Command::Resume, &[false]);
    assert_eq!(actions, vec![Action::EnterAlternateScreen]);
    assert_eq!(outcome, Outcome::Failed);
    assert_eq!(session.state(), SessionState::Suspended);

    let (actions, outcome) = run(&mut session, Command::Resume, &[true, false, true]);
    assert_eq!(
        actions,
        vec![
            Action::EnterAlternateScreen,
            Action::EnableRawMode,
            Action::LeaveAlternateScreen
        ]
    );
    assert_eq!(outcome, Outcome::Failed);
    assert_eq!(session.state(), SessionState::Suspended);

    let (actions, outcome) = run(&mut session, Command::Teardown, &[]);
    assert_eq!(actions, Vec::new());
    assert_eq!(outcome, Outcome::Completed);
    assert_eq!(session.state(), SessionState::Inactive);
}

#[test]
fn a_failed_redraw_fails_the_resume_with_both_modes_held() {
    let mut session = active_session();
    run(&mut session, Command::Suspend, &[true, true]);
    let (actions, outcome) = run(&mut session, Command::Resume, &[true, true, false]);
    assert_eq!(
        actions,
        vec![Action::EnterAlternateScreen, Action::EnableRawMode, Action::Redraw]
    );
    assert_eq!(outcome, Outcome::Failed);
    assert_eq!(session.state(), SessionState::AlternateAndRawActive);
    let (actions, _) = run(&mut session, Command::Teardown, &[true, true]);
    assert_eq!(actions, vec![Action::DisableRawMode, Action::LeaveAlternateScreen]);
    assert_eq!(session.state(), SessionState::Inactive);
}

#[test]
fn commands_that_do_not_fit_the_state_are_rejected() {
    let mut session = TerminalSession::new();
    assert_eq!(session.request(Command::Suspend), Directive::Finished(Outcome::Rejected));
    assert_eq!(session.request(Command::Resume), Directive::Finished(Outcome::Rejected));
    assert_eq!(session.report(true), Directive::Finished(Outcome::Rejected));
    assert_eq!(session.state(), SessionState::Inactive);

    let mut session = active_session();
    assert_eq!(session.request(Command::Enter), Directive::Finished(Outcome::Rejected));
    assert_eq!(session.request(Command::Resume), Directive::Finished(Outcome::Rejected));
    assert_eq!(session.state(), SessionState::AlternateAndRawActive);

    run(&mut session, Command::Suspend, &[true, true]);
    assert_eq!(session.request(Command::Enter), Directive::Finished(Outcome::Rejected));
    assert_eq!(session.request(Command::Suspend), Directive::Finished(Outcome::Rejected));
    assert_eq!(session.state(), SessionState::Suspended);
}

#[test]
fn a_command_in_the_middle_of_an_operation_is_rejected() {
    let mut session = TerminalSession::new();
    session.request(Command::Enter);
    assert_eq!(session.request(Command::Enter), Directive::Finished(Outcome::Rejected));
    assert_eq!(session.request(Command::Suspend), Directive::Finished(Outcome::Rejected));
    assert_eq!(session.report(true), Directive::Perform(Action::EnableRawMode));
}

#[test]
fn teardown_in_the_middle_of_entering_releases_what_is_held() {
    let mut session = TerminalSession::new();
    session.request(Command::Enter);
    session.report(true);
    assert_eq!(session.state(), SessionState::AlternateActive);
    let (actions, outcome) = run(&mut session, Command::Teardown, &[true]);
    assert_eq!(actions, vec![Action::LeaveAlternateScreen]);
    assert_eq!(outcome, Outcome::Completed);
    assert_eq!(session.state(), SessionState::Inactive);
    assert!(session.is_idle());
}

#[test]
fn step_is_request_and_report() {
    let mut session = TerminalSession::new();
    assert_eq!(
        session.step(Event::Request(Command::Enter)),
        Directive::Perform(Action::EnterAlternateScreen)
    );
    assert_eq!(session.step(Event::Report(true)), Directive::Perform(Action::EnableRawMode));
    assert_eq!(session.step(Event::Report(true)), Directive::Finished(Outcome::Completed));
    assert_eq!(
        session.step(Event::Request(Command::Teardown)),
        Directive::Perform(Action::DisableRawMode)
    );
    assert_eq!(
        session.step(Event::Report(true)),
        Directive::Perform(Action::LeaveAlternateScreen)
    );
    assert_eq!(session.step(Event::Report(true)), Directive::Finished(Outcome::Completed));
    assert_eq!(session.state(), SessionState::Inactive);
}
