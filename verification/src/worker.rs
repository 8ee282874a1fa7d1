//! The controller of the worker: what it does about each command of the
//! presentation layer, and about the end of each thing it has started.
//!
//! The controller does no input or output. For each event it hands out the
//! effects that the caller is to bring about, in order; the last of them
//! says what to wait for.

use vstd::prelude::*;
use vstd::string::*;
use crate::attempt::{maintenance_error, AttemptOutcome, AttemptOutcomeView};
use crate::error::{
    Failure, FailureKind, FailureView, PatchError, PatchErrorLevel, PatchErrorView,
};
use crate::message::{GUIMessage, PatchMessage, PatchMessageView, PatchStatus};

verus! {

/// How long the controller waits after the application has started before
/// it says so, in milliseconds.
pub const SETTLE_DELAY_MILLIS: u64 = 3000;

/// How the last attempt, or the last launch, ended.
#[derive(Debug, Clone, Copy, PartialEq, Eq, Structural)]
pub enum Outcome {
    Finished,
    Failed,
}

/// The states of the controller.
#[derive(Debug, Clone, Copy, PartialEq, Eq, Structural)]
pub enum WorkerState {
    /// An attempt is running.
    Working,
    /// The controller waits for a command.
    AwaitingInput(Outcome),
    /// The application is being started.
    Launching,
    /// The controller has stopped.
    Terminated,
}

/// What the controller waits for.
#[derive(Debug, Clone, Copy, PartialEq, Eq, Structural)]
pub enum Waiting {
    /// A command.
    Command,
    /// The end of the attempt.
    Attempt,
    /// The start of the launcher that is to take over. `restored` tells
    /// whether it is the launcher under its own name.
    Relaunch { restored: bool },
    /// The start of the application.
    Launch,
    /// The end of the settle delay.
    Settle,
    /// Nothing.
    Nothing,
}

/// The controller.
#[derive(Debug, Clone, Copy, PartialEq, Eq, Structural)]
pub struct Controller {
    pub state: WorkerState,
    pub waiting: Waiting,
    /// Whether `Play` is obeyed after a failure, and not only after an
    /// attempt that finished.
    pub play_after_failure: bool,
}

/// What happened.
#[derive(Debug, PartialEq, Eq)]
pub enum WorkerEvent {
    /// The presentation layer sent a command.
    Command(GUIMessage),
    /// The presentation layer is gone.
    Disconnected,
    /// The attempt ended.
    AttemptDone(AttemptOutcome),
    /// The launcher that is to take over was started.
    Relaunched,
    /// It could not be started, for this reason.
    RelaunchFailed(String),
    /// The application was started.
    Launched,
    /// It could not be started, for this reason.
    LaunchFailed(String),
    /// The settle delay is over.
    Settled,
}

/// What the contracts say of a `WorkerEvent`: its texts are sequences of
/// characters.
pub enum WorkerEventView {
    Command(GUIMessage),
    Disconnected,
    AttemptDone(AttemptOutcomeView),
    Relaunched,
    RelaunchFailed(Seq<char>),
    Launched,
    LaunchFailed(Seq<char>),
    Settled,
}

impl View for WorkerEvent {
    type V = WorkerEventView;

    open spec fn view(&self) -> WorkerEventView {
        match self {
            WorkerEvent::Command(c) => WorkerEventView::Command(*c),
            WorkerEvent::Disconnected => WorkerEventView::Disconnected,
            WorkerEvent::AttemptDone(o) => WorkerEventView::AttemptDone(o@),
            WorkerEvent::Relaunched => WorkerEventView::Relaunched,
            WorkerEvent::RelaunchFailed(cause) => WorkerEventView::RelaunchFailed(cause@),
            WorkerEvent::Launched => WorkerEventView::Launched,
            WorkerEvent::LaunchFailed(cause) => WorkerEventView::LaunchFailed(cause@),
            WorkerEvent::Settled => WorkerEventView::Settled,
        }
    }
}

/// What the caller is to bring about.
#[derive(Debug, PartialEq, Eq)]
pub enum Effect {
    /// Send this message to the presentation layer.
    Send(PatchMessage),
    /// Write this failure to the log.
    Log(Failure),
    /// Run an attempt, and report its end with `WorkerEvent::AttemptDone`.
    RunAttempt,
    /// Start the file of this name beside the running executable as a
    /// detached process, and report `Relaunched` or `RelaunchFailed`.
    Relaunch { name: String },
    /// Start the application as a detached process, and report `Launched`
    /// or `LaunchFailed`.
    LaunchApplication,
    /// Wait for this many milliseconds, and report `Settled`.
    Settle { millis: u64 },
    /// Wait for the next command, and report it.
    AwaitCommand,
    /// Stop. After a `Relaunched`, end the process.
    Stop,
}

/// What the contracts say of a `Effect`: its texts are sequences of
/// characters.
pub enum EffectView {
    Send(PatchMessageView),
    Log(FailureView),
    RunAttempt,
    Relaunch { name: Seq<char> },
    LaunchApplication,
    Settle { millis: u64 },
    AwaitCommand,
    Stop,
}

impl View for Effect {
    type V = EffectView;

    open spec fn view(&self) -> EffectView {
        match self {
            Effect::Send(m) => EffectView::Send(m@),
            Effect::Log(f) => EffectView::Log(f@),
            Effect::RunAttempt => EffectView::RunAttempt,
            Effect::Relaunch { name } => EffectView::Relaunch { name: name@ },
            Effect::LaunchApplication => EffectView::LaunchApplication,
            Effect::Settle { millis } => EffectView::Settle { millis: *millis },
            Effect::AwaitCommand => EffectView::AwaitCommand,
            Effect::Stop => EffectView::Stop,
        }
    }
}

/// The views of some effects, in the same order.
pub open spec fn effects_view(effects: Seq<Effect>) -> Seq<EffectView> {
    effects.map_values(|e: Effect| e@)
}

/// True for the messages with which the backlog of commands is discarded:
/// those that tell of a change of status. What the user has sent while the
/// step before was running does not count for the new state.
pub open spec fn discards(message: PatchMessageView) -> bool {
    message is PatchStatus
}

/// Tells whether the backlog of commands is to be discarded when this
/// message is sent.
pub fn discards_backlog(message: &PatchMessage) -> (discard: bool)
    ensures
        discard == discards(message@),
{
    match message {
        PatchMessage::PatchStatus(_) => true,
        _ => false,
    }
}

/// The message that tells the user of a failure: information for a failure
/// of level `Low`, an error for one of level `High`.
pub open spec fn failure_message(error: PatchErrorView) -> PatchMessageView {
    if error.level == PatchErrorLevel::Low {
        PatchMessageView::Info(error.friendly_message)
    } else {
        PatchMessageView::Error(error.friendly_message)
    }
}

/// What is done about a failure, whatever its level: the presentation
/// layer is told of the status and of the failure, the cause is logged, and
/// the controller waits for a command.
pub open spec fn failure_effects(error: PatchErrorView) -> Seq<EffectView> {
    seq![
        EffectView::Send(PatchMessageView::PatchStatus(PatchStatus::Failed)),
        EffectView::Send(failure_message(error)),
        EffectView::Log(error.internal_error),
        EffectView::AwaitCommand,
    ]
}

/// The failure of a process that could not be started.
pub open spec fn launch_failure(message: Seq<char>, cause: Seq<char>) -> FailureView {
    FailureView { kind: FailureKind::ProcessLaunch, message, cause }
}

/// What the user is told when a launcher could not be started.
pub open spec fn relaunch_error(cause: Seq<char>, restored: bool) -> PatchErrorView {
    PatchErrorView {
        internal_error: launch_failure("Couldn't start the launcher"@, cause),
        friendly_message: if restored {
            "Failed to start new launcher"@
        } else {
            "Could not start updated launcher"@
        },
        level: PatchErrorLevel::High,
    }
}

/// What the user is told when the application could not be started.
pub open spec fn launch_error(cause: Seq<char>) -> PatchErrorView {
    PatchErrorView {
        internal_error: launch_failure("Couldn't start the game"@, cause),
        friendly_message: "Failed to launch the game"@,
        level: PatchErrorLevel::High,
    }
}

/// The controller waits for a command after a failure.
pub open spec fn failed(c: Controller, error: PatchErrorView) -> (Controller, Seq<EffectView>) {
    (
        Controller {
            state: WorkerState::AwaitingInput(Outcome::Failed),
            waiting: Waiting::Command,
            ..c
        },
        failure_effects(error),
    )
}

/// An attempt begins.
pub open spec fn retry(c: Controller) -> (Controller, Seq<EffectView>) {
    (
        Controller { state: WorkerState::Working, waiting: Waiting::Attempt, ..c },
        seq![
            EffectView::Send(PatchMessageView::PatchStatus(PatchStatus::Working)),
            EffectView::RunAttempt,
        ],
    )
}

/// The controller stops.
pub open spec fn stop(c: Controller) -> (Controller, Seq<EffectView>) {
    (
        Controller { state: WorkerState::Terminated, waiting: Waiting::Nothing, ..c },
        seq![EffectView::Stop],
    )
}

/// True if `Play` is obeyed in this state.
pub open spec fn may_play(c: Controller) -> bool {
    c.state == WorkerState::AwaitingInput(Outcome::Finished) || c.play_after_failure
}

/// The state after an event, and the effects to bring about. An event that
/// the controller does not wait for changes nothing.
pub open spec fn react(c: Controller, e: WorkerEventView) -> (Controller, Seq<EffectView>) {
    match c.waiting {
        Waiting::Command => match e {
            WorkerEventView::Command(GUIMessage::Retry) => retry(c),
            WorkerEventView::Command(GUIMessage::Play) => if may_play(c) {
                (
                    Controller { state: WorkerState::Launching, waiting: Waiting::Launch, ..c },
                    seq![EffectView::LaunchApplication],
                )
            } else {
                (c, seq![EffectView::AwaitCommand])
            },
            WorkerEventView::Command(GUIMessage::Close) => stop(c),
            WorkerEventView::Disconnected => stop(c),
            _ => (c, seq![EffectView::AwaitCommand]),
        },
        Waiting::Attempt => match e {
            WorkerEventView::AttemptDone(AttemptOutcomeView::Completed) => (
                Controller {
                    state: WorkerState::AwaitingInput(Outcome::Finished),
                    waiting: Waiting::Command,
                    ..c
                },
                seq![EffectView::AwaitCommand],
            ),
            WorkerEventView::AttemptDone(AttemptOutcomeView::Failed(error)) => failed(c, error),
            WorkerEventView::AttemptDone(AttemptOutcomeView::Relaunch { name, restored }) => (
                Controller { waiting: Waiting::Relaunch { restored }, ..c },
                seq![EffectView::Relaunch { name }],
            ),
            _ => (c, Seq::empty()),
        },
        Waiting::Relaunch { restored } => match e {
            WorkerEventView::Relaunched => stop(c),
            WorkerEventView::RelaunchFailed(cause) => failed(c, relaunch_error(cause, restored)),
            _ => (c, Seq::empty()),
        },
        Waiting::Launch => match e {
            WorkerEventView::Launched => (
                Controller { waiting: Waiting::Settle, ..c },
                seq![EffectView::Settle { millis: SETTLE_DELAY_MILLIS }],
            ),
            WorkerEventView::LaunchFailed(cause) => failed(c, launch_error(cause)),
            _ => (c, Seq::empty()),
        },
        Waiting::Settle => match e {
            WorkerEventView::Settled => (
                Controller { state: WorkerState::Terminated, waiting: Waiting::Nothing, ..c },
                seq![
                    EffectView::Send(PatchMessageView::PatchStatus(PatchStatus::Launched)),
                    EffectView::Stop,
                ],
            ),
            _ => (c, Seq::empty()),
        },
        Waiting::Nothing => (c, seq![EffectView::Stop]),
    }
}

/// What holds of the controller in every state: what it waits for goes with
/// the state it is in.
pub open spec fn consistent(c: Controller) -> bool {
    match c.state {
        WorkerState::Working => c.waiting == Waiting::Attempt || c.waiting is Relaunch,
        WorkerState::AwaitingInput(_) => c.waiting == Waiting::Command,
        WorkerState::Launching => c.waiting == Waiting::Launch || c.waiting == Waiting::Settle,
        WorkerState::Terminated => c.waiting == Waiting::Nothing,
    }
}

/// Makes the effects that follow a failure.
pub fn effects_of_failure(error: PatchError) -> (effects: Vec<Effect>)
    ensures
        effects_view(effects@) == failure_effects(error@),
{
    let mut effects: Vec<Effect> = Vec::new();
    effects.push(Effect::Send(PatchMessage::PatchStatus(PatchStatus::Failed)));
    let PatchError { internal_error, friendly_message, level } = error;
    match level {
        PatchErrorLevel::Low => effects.push(Effect::Send(PatchMessage::Info(friendly_message))),
        PatchErrorLevel::High => effects.push(Effect::Send(PatchMessage::Error(friendly_message))),
    }
    effects.push(Effect::Log(internal_error));
    effects.push(Effect::AwaitCommand);
    proof {
        assert(effects_view(effects@) =~= failure_effects(error@));
    }
    effects
}

impl Controller {
    /// Makes a controller that has not started yet: it stands as after a
    /// failure, and waits for its first command.
    pub fn new(play_after_failure: bool) -> (c: Controller)
        ensures
            c == (Controller {
                state: WorkerState::AwaitingInput(Outcome::Failed),
                waiting: Waiting::Command,
                play_after_failure,
            }),
            consistent(c),
    {
        Controller {
            state: WorkerState::AwaitingInput(Outcome::Failed),
            waiting: Waiting::Command,
            play_after_failure,
        }
    }

    /// Returns the state of the controller.
    pub fn state(&self) -> (state: WorkerState)
        ensures
            state == self.state,
    {
        self.state
    }

    /// Starts the controller: the first attempt begins without a command.
    pub fn start(&mut self) -> (effects: Vec<Effect>)
        requires
            consistent(*old(self)),
        ensures
            consistent(*final(self)),
            *final(self) == react(
                *old(self),
                WorkerEventView::Command(GUIMessage::Retry),
            ).0,
            effects_view(effects@) == react(
                *old(self),
                WorkerEventView::Command(GUIMessage::Retry),
            ).1,
    {
        self.step(WorkerEvent::Command(GUIMessage::Retry))
    }

    /// Begins an attempt.
    fn begin_attempt(&mut self) -> (effects: Vec<Effect>)
        ensures
            *final(self) == retry(*old(self)).0,
            effects_view(effects@) == retry(*old(self)).1,
    {
        self.state = WorkerState::Working;
        self.waiting = Waiting::Attempt;
        let mut effects: Vec<Effect> = Vec::new();
        effects.push(Effect::Send(PatchMessage::PatchStatus(PatchStatus::Working)));
        effects.push(Effect::RunAttempt);
        proof {
            assert(effects_view(effects@) =~= retry(*old(self)).1);
        }
        effects
    }

    /// Stops the controller.
    fn halt(&mut self) -> (effects: Vec<Effect>)
        ensures
            *final(self) == stop(*old(self)).0,
            effects_view(effects@) == stop(*old(self)).1,
    {
        self.state = WorkerState::Terminated;
        self.waiting = Waiting::Nothing;
        let mut effects: Vec<Effect> = Vec::new();
        effects.push(Effect::Stop);
        proof {
            assert(effects_view(effects@) =~= stop(*old(self)).1);
        }
        effects
    }

    /// Goes back to waiting for a command, after a failure.
    fn fail(&mut self, error: PatchError) -> (effects: Vec<Effect>)
        ensures
            *final(self) == failed(*old(self), error@).0,
            effects_view(effects@) == failed(*old(self), error@).1,
    {
        self.state = WorkerState::AwaitingInput(Outcome::Failed);
        self.waiting = Waiting::Command;
        effects_of_failure(error)
    }

    /// Takes an event, and hands out the effects to bring about, in order.
    pub fn step(&mut self, event: WorkerEvent) -> (effects: Vec<Effect>)
        requires
            consistent(*old(self)),
        ensures
            consistent(*final(self)),
            *final(self) == react(*old(self), event@).0,
            effects_view(effects@) == react(*old(self), event@).1,
    {
        let mut effects: Vec<Effect> = Vec::new();
        match self.waiting {
            Waiting::Command => match event {
                WorkerEvent::Command(GUIMessage::Retry) => {
                    return self.begin_attempt();
                },
                WorkerEvent::Command(GUIMessage::Play) => {
                    let finished = match self.state {
                        WorkerState::AwaitingInput(Outcome::Finished) => true,
                        _ => false,
                    };
                    if finished || self.play_after_failure {
                        self.state = WorkerState::Launching;
                        self.waiting = Waiting::Launch;
                        effects.push(Effect::LaunchApplication);
                    } else {
                        effects.push(Effect::AwaitCommand);
                    }
                },
                WorkerEvent::Command(GUIMessage::Close) => {
                    return self.halt();
                },
                WorkerEvent::Disconnected => {
                    return self.halt();
                },
                _ => {
                    effects.push(Effect::AwaitCommand);
                },
            },
            Waiting::Attempt => match event {
                WorkerEvent::AttemptDone(AttemptOutcome::Completed) => {
                    self.state = WorkerState::AwaitingInput(Outcome::Finished);
                    self.waiting = Waiting::Command;
                    effects.push(Effect::AwaitCommand);
                },
                WorkerEvent::AttemptDone(AttemptOutcome::Failed(error)) => {
                    return self.fail(error);
                },
                WorkerEvent::AttemptDone(AttemptOutcome::Relaunch { name, restored }) => {
                    self.waiting = Waiting::Relaunch { restored };
                    effects.push(Effect::Relaunch { name });
                },
                _ => {},
            },
            Waiting::Relaunch { restored } => match event {
                WorkerEvent::Relaunched => {
                    return self.halt();
                },
                WorkerEvent::RelaunchFailed(cause) => {
                    let friendly_message = if restored {
                        "Failed to start new launcher".to_owned()
                    } else {
                        "Could not start updated launcher".to_owned()
                    };
                    return self.fail(
                        PatchError {
                            internal_error: Failure {
                                kind: FailureKind::ProcessLaunch,
                                message: "Couldn't start the launcher".to_owned(),
                                cause,
                            },
                            friendly_message,
                            level: PatchErrorLevel::High,
                        },
                    );
                },
                _ => {},
            },
            Waiting::Launch => match event {
                WorkerEvent::Launched => {
                    self.waiting = Waiting::Settle;
                    effects.push(Effect::Settle { millis: SETTLE_DELAY_MILLIS });
                },
                WorkerEvent::LaunchFailed(cause) => {
                    return self.fail(
                        PatchError {
                            internal_error: Failure {
                                kind: FailureKind::ProcessLaunch,
                                message: "Couldn't start the game".to_owned(),
                                cause,
                            },
                            friendly_message: "Failed to launch the game".to_owned(),
                            level: PatchErrorLevel::High,
                        },
                    );
                },
                _ => {},
            },
            Waiting::Settle => match event {
                WorkerEvent::Settled => {
                    self.state = WorkerState::Terminated;
                    self.waiting = Waiting::Nothing;
                    effects.push(Effect::Send(PatchMessage::PatchStatus(PatchStatus::Launched)));
                    effects.push(Effect::Stop);
                },
                _ => {},
            },
            Waiting::Nothing => {
                effects.push(Effect::Stop);
            },
        }
        proof {
            assert(effects_view(effects@) =~= react(*old(self), event@).1);
        }
        effects
    }
}

/// A `Retry` after a failure is never dropped. The controller passes
/// through `Working`, where an attempt is run, and when the attempt ends
/// the controller waits for a command again: after a finished attempt if it
/// completed, after a failure if it failed, and in that case the user is
/// told of the status and of the failure, and the cause is logged.
pub proof fn lemma_retry_is_obeyed(c: Controller, outcome: AttemptOutcomeView)
    requires
        c.waiting == Waiting::Command,
        c.state is AwaitingInput,
        !(outcome is Relaunch),
    ensures
        ({
            let (working, first) = react(c, WorkerEventView::Command(GUIMessage::Retry));
            let (ended, second) = react(working, WorkerEventView::AttemptDone(outcome));
            &&& working.state == WorkerState::Working
            &&& first == seq![
                EffectView::Send(PatchMessageView::PatchStatus(PatchStatus::Working)),
                EffectView::RunAttempt,
            ]
            &&& outcome is Completed ==> ended.state == WorkerState::AwaitingInput(Outcome::Finished)
            &&& outcome is Failed ==> ended.state == WorkerState::AwaitingInput(Outcome::Failed)
                && second == failure_effects(outcome->Failed_0)
            &&& ended.waiting == Waiting::Command
            &&& second.last() == EffectView::AwaitCommand
        }),
{
}

/// An attempt that ends with a launcher to take over leaves the controller
/// in `Working` until that launcher is started. If it starts, the
/// controller stops; if not, the controller waits for a command after a
/// failure of level `High`.
pub proof fn lemma_relaunch_ends_or_fails(
    c: Controller,
    name: Seq<char>,
    restored: bool,
    cause: Seq<char>,
)
    requires
        c.waiting == Waiting::Attempt,
        c.state == WorkerState::Working,
    ensures
        ({
            let (relaunching, first) = react(
                c,
                WorkerEventView::AttemptDone(AttemptOutcomeView::Relaunch { name, restored }),
            );
            &&& relaunching.state == WorkerState::Working
            &&& first == seq![EffectView::Relaunch { name }]
            &&& react(relaunching, WorkerEventView::Relaunched).0.state == WorkerState::Terminated
            &&& react(relaunching, WorkerEventView::Relaunched).1 == seq![EffectView::Stop]
            &&& react(relaunching, WorkerEventView::RelaunchFailed(cause)).0.state
                == WorkerState::AwaitingInput(Outcome::Failed)
            &&& react(relaunching, WorkerEventView::RelaunchFailed(cause)).1 == failure_effects(
                relaunch_error(cause, restored),
            )
        }),
{
}

/// The application is started only on `Play`. When it has started, the
/// controller lets the settle delay pass, says that the application is
/// launched, and stops. When it could not be started, the controller waits
/// for a command after a failure.
pub proof fn lemma_play_launches(c: Controller, cause: Seq<char>)
    requires
        c.waiting == Waiting::Command,
        may_play(c),
    ensures
        ({
            let (launching, first) = react(c, WorkerEventView::Command(GUIMessage::Play));
            let (settling, second) = react(launching, WorkerEventView::Launched);
            let (ended, third) = react(settling, WorkerEventView::Settled);
            &&& launching.state == WorkerState::Launching
            &&& first == seq![EffectView::LaunchApplication]
            &&& second == seq![EffectView::Settle { millis: 3000 }]
            &&& settling.state == WorkerState::Launching
            &&& ended.state == WorkerState::Terminated
            &&& third == seq![
                EffectView::Send(PatchMessageView::PatchStatus(PatchStatus::Launched)),
                EffectView::Stop,
            ]
            &&& react(launching, WorkerEventView::LaunchFailed(cause)).0.state
                == WorkerState::AwaitingInput(Outcome::Failed)
            &&& react(launching, WorkerEventView::LaunchFailed(cause)).1 == failure_effects(
                launch_error(cause),
            )
        }),
{
}

/// The level of a failure changes what the user is shown and nothing else:
/// whatever the level, the controller ends in the same state and hands out
/// the same effects but for the one message.
pub proof fn lemma_level_is_presentation_only(c: Controller, low: PatchErrorView, high: PatchErrorView)
    requires
        c.waiting == Waiting::Attempt,
        low.level == PatchErrorLevel::Low,
        high.level == PatchErrorLevel::High,
        low.internal_error == high.internal_error,
        low.friendly_message == high.friendly_message,
    ensures
        ({
            let (a, x) = react(c, WorkerEventView::AttemptDone(AttemptOutcomeView::Failed(low)));
            let (b, y) = react(c, WorkerEventView::AttemptDone(AttemptOutcomeView::Failed(high)));
            &&& a == b
            &&& x.len() == y.len()
            &&& forall|i: int| 0 <= i < x.len() && i != 1 ==> x[i] == y[i]
            &&& x[1] == EffectView::Send(PatchMessageView::Info(low.friendly_message))
            &&& y[1] == EffectView::Send(PatchMessageView::Error(high.friendly_message))
        }),
{
}

/// An attempt that ends because the server is under maintenance leaves the
/// controller waiting for a command after a failure, and the user is told
/// so as information, not as an error.
pub proof fn lemma_maintenance_is_information(c: Controller)
    requires
        c.waiting == Waiting::Attempt,
    ensures
        ({
            let (ended, effects) = react(
                c,
                WorkerEventView::AttemptDone(AttemptOutcomeView::Failed(maintenance_error())),
            );
            &&& ended.state == WorkerState::AwaitingInput(Outcome::Failed)
            &&& ended.waiting == Waiting::Command
            &&& effects == seq![
                EffectView::Send(PatchMessageView::PatchStatus(PatchStatus::Failed)),
                EffectView::Send(PatchMessageView::Info("Server is down for maintenance"@)),
                EffectView::Log(maintenance_error().internal_error),
                EffectView::AwaitCommand,
            ]
        }),
{
}

} // verus!
