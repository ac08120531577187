//! The terminal session: which display and input modes are held, and what
//! to do next.
//!
//! A session holds up to two modes, one inside the other: the alternate
//! screen, and raw input within it. The session never touches the terminal.
//! It is told what is wanted ([`Command`]) and how the last switch went,
//! answers with the next switch to make ([`Action`]) or with the end of the
//! operation ([`Outcome`]), and keeps track of what is held, so that nothing
//! is released twice and nothing that was acquired is left behind.

use vstd::prelude::*;

verus! {

/// The token for raw input mode: it exists while the mode is on.
#[derive(Debug)]
pub struct RawMode {}

/// The token for the alternate screen: it exists while that screen is
/// shown, and holds the raw-mode token while raw input is on.
#[derive(Debug)]
pub struct AlternateScreen {
    raw: Option<RawMode>,
}

/// The states of a session.
#[derive(Debug, Clone, Copy, PartialEq, Eq, Structural)]
pub enum SessionState {
    /// The terminal is as the user left it.
    Inactive,
    /// The alternate screen is shown; input is still cooked.
    AlternateActive,
    /// The alternate screen is shown and input is raw.
    AlternateAndRawActive,
    /// Both modes were given up for an external program; the session goes on.
    Suspended,
}

/// What can be asked of a session.
#[derive(Debug, Clone, Copy, PartialEq, Eq, Structural)]
pub enum Command {
    /// Acquire the alternate screen, then raw input.
    Enter,
    /// Give both modes up for an external program.
    Suspend,
    /// Take both modes back and redraw.
    Resume,
    /// Give up whatever is held and end the session.
    Teardown,
}

/// One switch of the terminal, for the caller to perform.
#[derive(Debug, Clone, Copy, PartialEq, Eq, Structural)]
pub enum Action {
    /// Show the alternate screen.
    EnterAlternateScreen,
    /// Turn raw input on.
    EnableRawMode,
    /// Turn raw input off.
    DisableRawMode,
    /// Go back to the main screen.
    LeaveAlternateScreen,
    /// Clear and redraw the interface.
    Redraw,
}

/// The operation that a session is in the middle of.
#[derive(Debug, Clone, Copy, PartialEq, Eq, Structural)]
pub enum Job {
    /// None.
    Idle,
    /// Entering.
    Entering,
    /// Resuming after a suspension.
    Resuming,
    /// Undoing a failed entry or resumption.
    RollingBack,
    /// Suspending.
    Suspending,
    /// Tearing down.
    TearingDown,
}

/// How an operation ended.
#[derive(Debug, Clone, Copy, PartialEq, Eq, Structural)]
pub enum Outcome {
    /// Every switch succeeded.
    Completed,
    /// The operation was carried through although a release failed.
    CompletedWithFaults,
    /// An acquisition failed; what had been acquired was given up again.
    Failed,
    /// The command or report does not fit the session's state; nothing
    /// changed.
    Rejected,
}

/// What a session tells its caller.
#[derive(Debug, Clone, Copy, PartialEq, Eq, Structural)]
pub enum Directive {
    /// Perform this switch and report how it went.
    Perform(Action),
    /// The operation is over.
    Finished(Outcome),
}

/// What a session is told.
#[derive(Debug, Clone, Copy, PartialEq, Eq, Structural)]
pub enum Event {
    /// An operation is wanted.
    Request(Command),
    /// The switch last directed was performed; `true` if it succeeded.
    Report(bool),
}

/// A session as a value: what is held and what is under way.
pub struct SessionModel {
    /// The alternate screen is held.
    pub alternate: bool,
    /// Raw input is held.
    pub raw: bool,
    /// A suspension is outstanding.
    pub suspended: bool,
    /// The operation under way.
    pub job: Job,
    /// A release of the operation under way has failed.
    pub faulted: bool,
}

impl SessionModel {
    /// A session that holds nothing and does nothing.
    pub open spec fn initial() -> SessionModel {
        SessionModel {
            alternate: false,
            raw: false,
            suspended: false,
            job: Job::Idle,
            faulted: false,
        }
    }

    /// Raw input is held only within the alternate screen.
    pub open spec fn wf(self) -> bool {
        self.raw ==> self.alternate
    }

    /// The state that the held modes amount to.
    pub open spec fn state(self) -> SessionState {
        if self.alternate {
            if self.raw {
                SessionState::AlternateAndRawActive
            } else {
                SessionState::AlternateActive
            }
        } else if self.suspended {
            SessionState::Suspended
        } else {
            SessionState::Inactive
        }
    }

    /// At rest in the given state.
    pub open spec fn rests_in(self, state: SessionState) -> bool {
        self.wf() && self.job == Job::Idle && self.state() == state
    }

    /// The first release of an operation that gives up what is held, or its
    /// end if nothing is held.
    pub open spec fn begin_release(self, job: Job, suspended: bool) -> (SessionModel, Directive) {
        if self.raw {
            (SessionModel { job, faulted: false, ..self }, Directive::Perform(Action::DisableRawMode))
        } else if self.alternate {
            (
                SessionModel { job, faulted: false, ..self },
                Directive::Perform(Action::LeaveAlternateScreen),
            )
        } else {
            (
                SessionModel { job: Job::Idle, faulted: false, suspended, ..self },
                Directive::Finished(Outcome::Completed),
            )
        }
    }

    /// The session after a command, and its answer.
    ///
    /// Teardown is taken at any time and abandons an operation under way.
    /// Any other command is taken only at rest and in the state it starts
    /// from; otherwise it is rejected and changes nothing.
    pub open spec fn request(self, command: Command) -> (SessionModel, Directive) {
        match command {
            Command::Teardown => self.begin_release(Job::TearingDown, false),
            Command::Enter => if self.job == Job::Idle && self.state() == SessionState::Inactive {
                (
                    SessionModel { job: Job::Entering, ..self },
                    Directive::Perform(Action::EnterAlternateScreen),
                )
            } else {
                (self, Directive::Finished(Outcome::Rejected))
            },
            Command::Resume => if self.job == Job::Idle && self.state()
                == SessionState::Suspended {
                (
                    SessionModel { job: Job::Resuming, ..self },
                    Directive::Perform(Action::EnterAlternateScreen),
                )
            } else {
                (self, Directive::Finished(Outcome::Rejected))
            },
            Command::Suspend => if self.job == Job::Idle && self.state()
                == SessionState::AlternateAndRawActive {
                self.begin_release(Job::Suspending, true)
            } else {
                (self, Directive::Finished(Outcome::Rejected))
            },
        }
    }

    /// The session after one step of an acquiring operation (`Entering` or
    /// `Resuming`), and its answer.
    pub open spec fn acquired(self, succeeded: bool) -> (SessionModel, Directive) {
        if !self.alternate {
            if succeeded {
                (
                    SessionModel { alternate: true, raw: false, ..self },
                    Directive::Perform(Action::EnableRawMode),
                )
            } else {
                (SessionModel { job: Job::Idle, ..self }, Directive::Finished(Outcome::Failed))
            }
        } else if !self.raw {
            if !succeeded {
                (
                    SessionModel { job: Job::RollingBack, ..self },
                    Directive::Perform(Action::LeaveAlternateScreen),
                )
            } else if self.job == Job::Resuming {
                (SessionModel { raw: true, ..self }, Directive::Perform(Action::Redraw))
            } else {
                (
                    SessionModel { raw: true, job: Job::Idle, ..self },
                    Directive::Finished(Outcome::Completed),
                )
            }
        } else {
            (
                SessionModel { suspended: false, job: Job::Idle, ..self },
                Directive::Finished(
                    if succeeded {
                        Outcome::Completed
                    } else {
                        Outcome::Failed
                    },
                ),
            )
        }
    }

    /// The session after one step of a releasing operation (`Suspending` or
    /// `TearingDown`), and its answer. A mode whose release failed counts as
    /// given up: it is not released again.
    pub open spec fn released(self, succeeded: bool) -> (SessionModel, Directive) {
        let faulted = self.faulted || !succeeded;
        if self.raw {
            (
                SessionModel { raw: false, faulted, ..self },
                Directive::Perform(Action::LeaveAlternateScreen),
            )
        } else {
            (
                SessionModel {
                    alternate: false,
                    raw: false,
                    suspended: self.job == Job::Suspending,
                    job: Job::Idle,
                    faulted: false,
                },
                Directive::Finished(
                    if faulted {
                        Outcome::CompletedWithFaults
                    } else {
                        Outcome::Completed
                    },
                ),
            )
        }
    }

    /// The session after a report on the switch last directed, and its
    /// answer. At rest there is nothing to report on: the report is rejected.
    pub open spec fn report(self, succeeded: bool) -> (SessionModel, Directive) {
        match self.job {
            Job::Idle => (self, Directive::Finished(Outcome::Rejected)),
            Job::Entering | Job::Resuming => self.acquired(succeeded),
            Job::RollingBack => (
                SessionModel { alternate: false, raw: false, job: Job::Idle, ..self },
                Directive::Finished(Outcome::Failed),
            ),
            Job::Suspending | Job::TearingDown => self.released(succeeded),
        }
    }

    /// The session after an event, and its answer.
    pub open spec fn step(self, event: Event) -> (SessionModel, Directive) {
        match event {
            Event::Request(command) => self.request(command),
            Event::Report(succeeded) => self.report(succeeded),
        }
    }
}

/// The course of one operation: the session it leaves, the switches that
/// were performed, and how it ended (`None` if the reports ran out first).
pub struct Run {
    /// The session after the operation.
    pub model: SessionModel,
    /// The switches performed, in order.
    pub actions: Seq<Action>,
    /// How the operation ended.
    pub outcome: Option<Outcome>,
}

/// Follows the session's directives: performs each switch, reports the next
/// of `outcomes` for it, and goes on until the operation is over.
pub open spec fn drive(
    model: SessionModel,
    directive: Directive,
    outcomes: Seq<bool>,
    actions: Seq<Action>,
) -> Run
    decreases outcomes.len(),
{
    match directive {
        Directive::Finished(outcome) => Run { model, actions, outcome: Some(outcome) },
        Directive::Perform(action) => if outcomes.len() == 0 {
            Run { model, actions, outcome: None }
        } else {
            let (next, answer) = model.report(outcomes[0]);
            drive(next, answer, outcomes.skip(1), actions.push(action))
        },
    }
}

/// The course of `command` on `model` when the switches go as `outcomes` say.
pub open spec fn run(model: SessionModel, command: Command, outcomes: Seq<bool>) -> Run {
    let (next, answer) = model.request(command);
    drive(next, answer, outcomes, Seq::empty())
}

/// The session at rest with both modes held.
pub open spec fn active() -> SessionModel {
    SessionModel { alternate: true, raw: true, ..SessionModel::initial() }
}

/// The session at rest during a suspension.
pub open spec fn suspended() -> SessionModel {
    SessionModel { suspended: true, ..SessionModel::initial() }
}

/// No event makes a session hold raw input outside the alternate screen.
pub proof fn lemma_step_keeps_wf(model: SessionModel, event: Event)
    requires
        model.wf(),
    ensures
        model.step(event).0.wf(),
{
}

/// A rejected event changes nothing.
pub proof fn lemma_rejected_changes_nothing(model: SessionModel, event: Event)
    requires
        model.step(event).1 == Directive::Finished(Outcome::Rejected),
    ensures
        model.step(event).0 == model,
{
}

/// Every operation is over after at most three switches, and leaves the
/// session at rest.
pub proof fn lemma_run_ends(model: SessionModel, command: Command, outcomes: Seq<bool>)
    requires
        model.wf(),
        model.job == Job::Idle || command == Command::Teardown,
        outcomes.len() >= 3,
    ensures
        run(model, command, outcomes).outcome is Some,
        run(model, command, outcomes).actions.len() <= 3,
        run(model, command, outcomes).model.wf(),
        run(model, command, outcomes).model.job == Job::Idle,
{
    reveal_with_fuel(drive, 5);
}

/// Entering succeeds exactly when both switches succeed, and then holds
/// both modes; when it fails, nothing is left active: an alternate screen
/// that was entered is left again.
pub proof fn lemma_enter(outcomes: Seq<bool>)
    requires
        outcomes.len() >= 3,
    ensures
        outcomes[0] && outcomes[1] ==> run(SessionModel::initial(), Command::Enter, outcomes) == (
        Run {
            model: active(),
            actions: seq![Action::EnterAlternateScreen, Action::EnableRawMode],
            outcome: Some(Outcome::Completed),
        }),
        !outcomes[0] ==> run(SessionModel::initial(), Command::Enter, outcomes) == (Run {
            model: SessionModel::initial(),
            actions: seq![Action::EnterAlternateScreen],
            outcome: Some(Outcome::Failed),
        }),
        outcomes[0] && !outcomes[1] ==> run(SessionModel::initial(), Command::Enter, outcomes) == (
        Run {
            model: SessionModel::initial(),
            actions: seq![
                Action::EnterAlternateScreen,
                Action::EnableRawMode,
                Action::LeaveAlternateScreen,
            ],
            outcome: Some(Outcome::Failed),
        }),
{
    reveal_with_fuel(drive, 5);
    let r = run(SessionModel::initial(), Command::Enter, outcomes);
    if outcomes[0] && outcomes[1] {
        assert(r.actions =~= seq![Action::EnterAlternateScreen, Action::EnableRawMode]);
    } else if !outcomes[0] {
        assert(r.actions =~= seq![Action::EnterAlternateScreen]);
    } else {
        assert(r.actions =~= seq![
            Action::EnterAlternateScreen,
            Action::EnableRawMode,
            Action::LeaveAlternateScreen,
        ]);
    }
}

/// Teardown of an active session releases raw input, then the alternate
/// screen, each once, whether or not the releases succeed, and leaves the
/// session inactive; a failed release is told in the outcome.
pub proof fn lemma_teardown(outcomes: Seq<bool>)
    requires
        outcomes.len() >= 3,
    ensures
        run(active(), Command::Teardown, outcomes) == (Run {
            model: SessionModel::initial(),
            actions: seq![Action::DisableRawMode, Action::LeaveAlternateScreen],
            outcome: Some(
                if outcomes[0] && outcomes[1] {
                    Outcome::Completed
                } else {
                    Outcome::CompletedWithFaults
                },
            ),
        }),
{
    reveal_with_fuel(drive, 5);
    let r = run(active(), Command::Teardown, outcomes);
    assert(r.actions =~= seq![Action::DisableRawMode, Action::LeaveAlternateScreen]);
}

/// Teardown of a session that holds nothing, inactive or suspended,
/// performs no switch: nothing is released twice.
pub proof fn lemma_teardown_once(model: SessionModel, outcomes: Seq<bool>)
    requires
        model == SessionModel::initial() || model == suspended(),
    ensures
        run(model, Command::Teardown, outcomes) == (Run {
            model: SessionModel::initial(),
            actions: Seq::empty(),
            outcome: Some(Outcome::Completed),
        }),
{
    reveal_with_fuel(drive, 2);
}

/// Entering and tearing down at once, with every switch succeeding,
/// restores the inactive session, and each mode is released exactly once.
pub proof fn lemma_enter_then_teardown(entering: Seq<bool>, tearing: Seq<bool>, again: Seq<bool>)
    requires
        entering.len() >= 3,
        tearing.len() >= 3,
        entering[0] && entering[1],
    ensures
        ({
            let entered = run(SessionModel::initial(), Command::Enter, entering);
            let torn = run(entered.model, Command::Teardown, tearing);
            let twice = run(torn.model, Command::Teardown, again);
            &&& entered.model.rests_in(SessionState::AlternateAndRawActive)
            &&& torn.model == SessionModel::initial()
            &&& torn.model.rests_in(SessionState::Inactive)
            &&& torn.actions == seq![Action::DisableRawMode, Action::LeaveAlternateScreen]
            &&& twice.model == SessionModel::initial()
            &&& twice.actions == Seq::<Action>::empty()
        }),
{
    lemma_enter(entering);
    lemma_teardown(tearing);
    lemma_teardown_once(SessionModel::initial(), again);
}

/// Suspending an active session releases raw input, then the alternate
/// screen, and leaves the session suspended even when a release fails; the
/// failure is told in the outcome.
pub proof fn lemma_suspend(outcomes: Seq<bool>)
    requires
        outcomes.len() >= 3,
    ensures
        run(active(), Command::Suspend, outcomes) == (Run {
            model: suspended(),
            actions: seq![Action::DisableRawMode, Action::LeaveAlternateScreen],
            outcome: Some(
                if outcomes[0] && outcomes[1] {
                    Outcome::Completed
                } else {
                    Outcome::CompletedWithFaults
                },
            ),
        }),
{
    reveal_with_fuel(drive, 5);
    let r = run(active(), Command::Suspend, outcomes);
    assert(r.actions =~= seq![Action::DisableRawMode, Action::LeaveAlternateScreen]);
}

/// Resuming, with every switch succeeding, takes both modes back in the
/// order of entering, redraws, and leaves the session active.
pub proof fn lemma_resume(outcomes: Seq<bool>)
    requires
        outcomes.len() >= 3,
        outcomes[0] && outcomes[1] && outcomes[2],
    ensures
        run(suspended(), Command::Resume, outcomes) == (Run {
            model: active(),
            actions: seq![
                Action::EnterAlternateScreen,
                Action::EnableRawMode,
                Action::Redraw,
            ],
            outcome: Some(Outcome::Completed),
        }),
{
    reveal_with_fuel(drive, 5);
    let r = run(suspended(), Command::Resume, outcomes);
    assert(r.actions =~= seq![
        Action::EnterAlternateScreen,
        Action::EnableRawMode,
        Action::Redraw,
    ]);
}

/// Suspending and then resuming returns to the active session that was
/// suspended, whatever became of the releases.
pub proof fn lemma_suspend_then_resume(suspending: Seq<bool>, resuming: Seq<bool>)
    requires
        suspending.len() >= 3,
        resuming.len() >= 3,
        resuming[0] && resuming[1] && resuming[2],
    ensures
        run(run(active(), Command::Suspend, suspending).model, Command::Resume, resuming).model
            == active(),
{
    lemma_suspend(suspending);
    lemma_resume(resuming);
}

impl RawMode {
    /// The token for raw input that has just been turned on.
    pub fn enable() -> (raw: RawMode) {
        RawMode {  }
    }
}

impl AlternateScreen {
    /// Whether raw input is on within this screen.
    pub closed spec fn raw_enabled(&self) -> bool {
        self.raw is Some
    }

    /// The token for an alternate screen that has just been entered: raw
    /// input is not on yet.
    pub fn enter() -> (screen: AlternateScreen)
        ensures
            !screen.raw_enabled(),
    {
        AlternateScreen { raw: None }
    }

    /// The token for this screen once raw input has been turned on.
    pub fn with_raw(self, raw: RawMode) -> (screen: AlternateScreen)
        ensures
            screen.raw_enabled(),
    {
        AlternateScreen { raw: Some(raw) }
    }

    /// The token for this screen once raw input has been turned off.
    pub fn without_raw(self) -> (screen: AlternateScreen)
        ensures
            !screen.raw_enabled(),
    {
        AlternateScreen { raw: None }
    }

    /// Whether raw input is on within this screen.
    pub fn has_raw(&self) -> (on: bool)
        ensures
            on == self.raw_enabled(),
    {
        self.raw.is_some()
    }
}

/// A terminal session.
pub struct TerminalSession {
    screen: Option<AlternateScreen>,
    suspended: bool,
    job: Job,
    faulted: bool,
}

impl View for TerminalSession {
    type V = SessionModel;

    closed spec fn view(&self) -> SessionModel {
        SessionModel {
            alternate: self.screen is Some,
            raw: match self.screen {
                Some(screen) => screen.raw_enabled(),
                None => false,
            },
            suspended: self.suspended,
            job: self.job,
            faulted: self.faulted,
        }
    }
}

impl TerminalSession {
    /// A session that holds nothing.
    pub fn new() -> (session: TerminalSession)
        ensures
            session@ == SessionModel::initial(),
    {
        TerminalSession { screen: None, suspended: false, job: Job::Idle, faulted: false }
    }

    /// Raw input is never held outside the alternate screen.
    pub proof fn lemma_wf(&self)
        ensures
            self@.wf(),
    {
    }

    /// The state of the session.
    pub fn state(&self) -> (state: SessionState)
        ensures
            state == self@.state(),
    {
        match &self.screen {
            Some(screen) => if screen.has_raw() {
                SessionState::AlternateAndRawActive
            } else {
                SessionState::AlternateActive
            },
            None => if self.suspended {
                SessionState::Suspended
            } else {
                SessionState::Inactive
            },
        }
    }

    /// Whether no operation is under way.
    pub fn is_idle(&self) -> (idle: bool)
        ensures
            idle == (self@.job == Job::Idle),
    {
        match self.job {
            Job::Idle => true,
            _ => false,
        }
    }

    /// Starts an operation that gives up what is held.
    fn begin_release(&mut self, job: Job, suspended: bool) -> (directive: Directive)
        ensures
            (final(self)@, directive) == old(self)@.begin_release(job, suspended),
    {
        self.faulted = false;
        match self.state() {
            SessionState::AlternateAndRawActive => {
                self.job = job;
                Directive::Perform(Action::DisableRawMode)
            },
            SessionState::AlternateActive => {
                self.job = job;
                Directive::Perform(Action::LeaveAlternateScreen)
            },
            _ => {
                self.job = Job::Idle;
                self.suspended = suspended;
                Directive::Finished(Outcome::Completed)
            },
        }
    }

    /// Asks for an operation and returns the first switch to perform, or
    /// the operation's end if there is nothing to perform.
    pub fn request(&mut self, command: Command) -> (directive: Directive)
        ensures
            (final(self)@, directive) == old(self)@.request(command),
    {
        let idle = self.is_idle();
        let state = self.state();
        match command {
            Command::Teardown => self.begin_release(Job::TearingDown, false),
            Command::Enter => {
                if idle && state == SessionState::Inactive {
                    self.job = Job::Entering;
                    Directive::Perform(Action::EnterAlternateScreen)
                } else {
                    Directive::Finished(Outcome::Rejected)
                }
            },
            Command::Resume => {
                if idle && state == SessionState::Suspended {
                    self.job = Job::Resuming;
                    Directive::Perform(Action::EnterAlternateScreen)
                } else {
                    Directive::Finished(Outcome::Rejected)
                }
            },
            Command::Suspend => {
                if idle && state == SessionState::AlternateAndRawActive {
                    self.begin_release(Job::Suspending, true)
                } else {
                    Directive::Finished(Outcome::Rejected)
                }
            },
        }
    }

    /// Takes note of one step of an acquiring operation.
    fn acquired(&mut self, succeeded: bool) -> (directive: Directive)
        ensures
            (final(self)@, directive) == old(self)@.acquired(succeeded),
    {
        match self.state() {
            SessionState::AlternateAndRawActive => {
                self.suspended = false;
                self.job = Job::Idle;
                if succeeded {
                    Directive::Finished(Outcome::Completed)
                } else {
                    Directive::Finished(Outcome::Failed)
                }
            },
            SessionState::AlternateActive => {
                if !succeeded {
                    self.job = Job::RollingBack;
                    Directive::Perform(Action::LeaveAlternateScreen)
                } else {
                    self.screen = Some(AlternateScreen::enter().with_raw(RawMode::enable()));
                    match self.job {
                        Job::Resuming => Directive::Perform(Action::Redraw),
                        _ => {
                            self.job = Job::Idle;
                            Directive::Finished(Outcome::Completed)
                        },
                    }
                }
            },
            _ => {
                if succeeded {
                    self.screen = Some(AlternateScreen::enter());
                    Directive::Perform(Action::EnableRawMode)
                } else {
                    self.job = Job::Idle;
                    Directive::Finished(Outcome::Failed)
                }
            },
        }
    }

    /// Takes note of one step of a releasing operation.
    fn released(&mut self, succeeded: bool) -> (directive: Directive)
        ensures
            (final(self)@, directive) == old(self)@.released(succeeded),
    {
        let faulted = self.faulted || !succeeded;
        match self.state() {
            SessionState::AlternateAndRawActive => {
                self.screen = Some(AlternateScreen::enter());
                self.faulted = faulted;
                Directive::Perform(Action::LeaveAlternateScreen)
            },
            _ => {
                self.screen = None;
                self.suspended = match self.job {
                    Job::Suspending => true,
                    _ => false,
                };
                self.job = Job::Idle;
                self.faulted = false;
                if faulted {
                    Directive::Finished(Outcome::CompletedWithFaults)
                } else {
                    Directive::Finished(Outcome::Completed)
                }
            },
        }
    }

    /// Takes note of how the switch last directed went, and returns the
    /// next switch to perform or the operation's end.
    pub fn report(&mut self, succeeded: bool) -> (directive: Directive)
        ensures
            (final(self)@, directive) == old(self)@.report(succeeded),
    {
        match self.job {
            Job::Idle => Directive::Finished(Outcome::Rejected),
            Job::Entering | Job::Resuming => self.acquired(succeeded),
            Job::RollingBack => {
                self.screen = None;
                self.job = Job::Idle;
                Directive::Finished(Outcome::Failed)
            },
            Job::Suspending | Job::TearingDown => self.released(succeeded),
        }
    }

    /// Feeds one event to the session.
    pub fn step(&mut self, event: Event) -> (directive: Directive)
        ensures
            (final(self)@, directive) == old(self)@.step(event),
    {
        match event {
            Event::Request(command) => self.request(command),
            Event::Report(succeeded) => self.report(succeeded),
        }
    }
}

} // verus!
