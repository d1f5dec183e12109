//! The frame loop as a state machine.
//!
//! The loop starts in `Setup`, where the display surface is acquired, goes
//! round in `Tick`, where a frame is drawn and input is polled, and ends
//! through `Teardown`, where the surface is released. The machine decides; the
//! caller acts. It asks the machine for the next action, performs it, and
//! reports how it went. A surface that was acquired is released exactly once
//! on every way out, and one that was never acquired is never released.

use vstd::prelude::*;

verus! {

/// The key that ends the loop.
pub const QUIT_KEY: char = 'q';

/// Longest wait for input in one tick, in milliseconds.
pub const POLL_TIMEOUT_MILLIS: u64 = 50;

/// What the poll of a tick saw.
#[derive(Clone, Copy, Debug, PartialEq, Eq, Structural)]
pub enum InputEvent {
    /// The key for this character was pressed.
    KeyPress(char),
    /// Anything else: another key, a key released, the mouse, a resize.
    Other,
}

/// The state that the loop carries from one tick to the next.
#[derive(Clone, Copy, Debug, PartialEq, Eq, Structural)]
pub struct LoopState {
    /// Whether another tick follows.
    pub running: bool,
}

/// Where the loop stands.
#[derive(Clone, Copy, Debug, PartialEq, Eq, Structural)]
pub enum Phase {
    /// The display surface is yet to be acquired.
    Setup,
    /// The surface is held; frames are drawn and input is polled.
    Tick,
    /// The loop is over; the surface is yet to be released.
    Teardown,
    /// Nothing is held and nothing is left to do.
    Exited,
}

/// What went wrong.
#[derive(Clone, Copy, Debug, PartialEq, Eq, Structural)]
pub enum LoopError {
    /// The display surface could not be acquired.
    SetupFailure,
    /// The display surface failed while a frame was drawn or input polled.
    TickFailure,
    /// The display surface could not be released.
    TeardownFailure,
}

/// What the caller is to do next.
#[derive(Clone, Copy, Debug, PartialEq, Eq, Structural)]
pub enum Action {
    /// Acquire the display surface.
    Acquire,
    /// Draw one frame, then wait for input, no longer than the poll timeout.
    DrawThenPoll,
    /// Release the display surface.
    Release,
    /// Leave the process with this exit code.
    Exit(u8),
}

/// How the action that the caller performed went.
#[derive(Clone, Copy, Debug, PartialEq, Eq, Structural)]
pub enum Report {
    /// The display surface is held.
    SetupSucceeded,
    /// The display surface could not be acquired; nothing is held.
    SetupFailed,
    /// The frame was drawn, and the poll saw this, or nothing in time.
    TickCompleted(Option<InputEvent>),
    /// The display surface failed during the tick.
    TickFailed,
    /// The display surface is released.
    TeardownSucceeded,
    /// The release failed; the process ends all the same.
    TeardownFailed,
}

/// The state machine of the frame loop.
#[derive(Clone, Copy, Debug, PartialEq, Eq, Structural)]
pub struct FrameLoop {
    /// Where the loop stands.
    pub phase: Phase,
    /// The state carried across ticks.
    pub state: LoopState,
    /// The first thing that went wrong, if anything did.
    pub failure: Option<LoopError>,
}

/// Whether what the poll saw asks to quit: a press of the quit key does, and
/// nothing else.
pub open spec fn asks_to_quit(polled: Option<InputEvent>) -> bool {
    polled == Some(InputEvent::KeyPress(QUIT_KEY))
}

/// The machine before anything was done.
pub open spec fn initial() -> FrameLoop {
    FrameLoop { phase: Phase::Setup, state: LoopState { running: true }, failure: None }
}

/// The exit code for an outcome: zero after a clean run, one after a failure.
pub open spec fn exit_code_of(failure: Option<LoopError>) -> u8 {
    if failure is None {
        0u8
    } else {
        1u8
    }
}

/// The action that the machine asks for.
pub open spec fn action_of(machine: FrameLoop) -> Action {
    match machine.phase {
        Phase::Setup => Action::Acquire,
        Phase::Tick => Action::DrawThenPoll,
        Phase::Teardown => Action::Release,
        Phase::Exited => Action::Exit(exit_code_of(machine.failure)),
    }
}

/// Whether a report can be the outcome of an action.
pub open spec fn answers(action: Action, report: Report) -> bool {
    match action {
        Action::Acquire => report is SetupSucceeded || report is SetupFailed,
        Action::DrawThenPoll => report is TickCompleted || report is TickFailed,
        Action::Release => report is TeardownSucceeded || report is TeardownFailed,
        Action::Exit(_) => false,
    }
}

/// The machine after a report. A report that does not answer the action that
/// the machine asked for leaves it as it is.
pub open spec fn next(machine: FrameLoop, report: Report) -> FrameLoop {
    match (machine.phase, report) {
        (Phase::Setup, Report::SetupSucceeded) => FrameLoop { phase: Phase::Tick, ..machine },
        (Phase::Setup, Report::SetupFailed) => FrameLoop {
            phase: Phase::Exited,
            failure: Some(LoopError::SetupFailure),
            ..machine
        },
        (Phase::Tick, Report::TickCompleted(polled)) => if asks_to_quit(polled) {
            FrameLoop { phase: Phase::Teardown, state: LoopState { running: false }, ..machine }
        } else {
            machine
        },
        (Phase::Tick, Report::TickFailed) => FrameLoop {
            phase: Phase::Teardown,
            failure: Some(LoopError::TickFailure),
            ..machine
        },
        (Phase::Teardown, Report::TeardownSucceeded) => FrameLoop {
            phase: Phase::Exited,
            ..machine
        },
        (Phase::Teardown, Report::TeardownFailed) => FrameLoop {
            phase: Phase::Exited,
            failure: if machine.failure is None {
                Some(LoopError::TeardownFailure)
            } else {
                machine.failure
            },
            ..machine
        },
        _ => machine,
    }
}

/// The machine after a run of reports, from the start.
pub open spec fn run(reports: Seq<Report>) -> FrameLoop
    decreases reports.len(),
{
    if reports.len() == 0 {
        initial()
    } else {
        next(run(reports.drop_last()), reports.last())
    }
}

/// Each report of the run answers the action that the machine asked for when
/// the report came.
pub open spec fn faithful(reports: Seq<Report>) -> bool
    decreases reports.len(),
{
    if reports.len() == 0 {
        true
    } else {
        faithful(reports.drop_last()) && answers(
            action_of(run(reports.drop_last())),
            reports.last(),
        )
    }
}

/// How often the caller performed `action` in the course of a run: the
/// number of reports that came when the machine had asked for `action`.
pub open spec fn times_asked(reports: Seq<Report>, action: Action) -> int
    decreases reports.len(),
{
    if reports.len() == 0 {
        0
    } else {
        times_asked(reports.drop_last(), action) + if action_of(run(reports.drop_last()))
            == action {
            1int
        } else {
            0int
        }
    }
}

/// Whether what the poll saw asks to quit.
pub fn handle_events(polled: Option<InputEvent>) -> (quit: bool)
    ensures
        quit == asks_to_quit(polled),
{
    match polled {
        Some(InputEvent::KeyPress(key)) => key == QUIT_KEY,
        _ => false,
    }
}

impl LoopState {
    /// The state at startup: running.
    pub fn new() -> (state: LoopState)
        ensures
            state.running,
    {
        LoopState { running: true }
    }

    /// The state after the poll of a tick.
    pub fn after_poll(self, polled: Option<InputEvent>) -> (state: LoopState)
        ensures
            state.running == (self.running && !asks_to_quit(polled)),
    {
        LoopState { running: self.running && !handle_events(polled) }
    }
}

impl FrameLoop {
    /// The machine before anything was done.
    pub fn start() -> (machine: FrameLoop)
        ensures
            machine == initial(),
    {
        FrameLoop { phase: Phase::Setup, state: LoopState::new(), failure: None }
    }

    /// The exit code of the process: zero after a clean run, one after a
    /// failure.
    pub fn exit_code(&self) -> (code: u8)
        ensures
            code == exit_code_of(self.failure),
    {
        match self.failure {
            None => 0,
            Some(_) => 1,
        }
    }

    /// What the caller is to do next.
    pub fn action(&self) -> (action: Action)
        ensures
            action == action_of(*self),
    {
        match self.phase {
            Phase::Setup => Action::Acquire,
            Phase::Tick => Action::DrawThenPoll,
            Phase::Teardown => Action::Release,
            Phase::Exited => Action::Exit(self.exit_code()),
        }
    }

    /// The machine after the caller has reported how the action went.
    pub fn step(self, report: Report) -> (machine: FrameLoop)
        ensures
            machine == next(self, report),
    {
        match self.phase {
            Phase::Setup => match report {
                Report::SetupSucceeded => FrameLoop {
                    phase: Phase::Tick,
                    state: self.state,
                    failure: self.failure,
                },
                Report::SetupFailed => FrameLoop {
                    phase: Phase::Exited,
                    state: self.state,
                    failure: Some(LoopError::SetupFailure),
                },
                _ => self,
            },
            Phase::Tick => match report {
                Report::TickCompleted(polled) => {
                    if handle_events(polled) {
                        FrameLoop {
                            phase: Phase::Teardown,
                            state: self.state.after_poll(polled),
                            failure: self.failure,
                        }
                    } else {
                        self
                    }
                },
                Report::TickFailed => FrameLoop {
                    phase: Phase::Teardown,
                    state: self.state,
                    failure: Some(LoopError::TickFailure),
                },
                _ => self,
            },
            Phase::Teardown => match report {
                Report::TeardownSucceeded => FrameLoop {
                    phase: Phase::Exited,
                    state: self.state,
                    failure: self.failure,
                },
                Report::TeardownFailed => FrameLoop {
                    phase: Phase::Exited,
                    state: self.state,
                    failure: match self.failure {
                        None => Some(LoopError::TeardownFailure),
                        Some(first) => Some(first),
                    },
                },
                _ => self,
            },
            Phase::Exited => self,
        }
    }
}

/// The display surface is released exactly once when it was acquired, and
/// never when it was not: in a run in which every report answers the action
/// asked for, the release is performed at most once, and not while the loop
/// ticks; when the machine has come to its end, the release was performed once
/// if the setup succeeded and never if the setup failed, and after a failed
/// setup the exit code is not zero.
pub proof fn release_exactly_once(reports: Seq<Report>)
    requires
        faithful(reports),
    ensures
        times_asked(reports, Action::Acquire) <= 1,
        times_asked(reports, Action::Release) <= 1,
        run(reports).phase is Tick ==> times_asked(reports, Action::Release) == 0,
        run(reports).phase is Exited ==> times_asked(reports, Action::Release) == if reports[0]
            is SetupSucceeded {
            1int
        } else {
            0int
        },
        run(reports).phase is Exited && reports[0] is SetupFailed ==> action_of(run(reports))
            == Action::Exit(1),
        run(reports).phase is Exited ==> (action_of(run(reports)) == Action::Exit(0)
            <==> run(reports).failure is None),
{
    lemma_accounted(reports);
}

/// A press of the quit key ends the loop within the tick in which it was
/// polled: the next thing asked for is the release. Anything else that a tick
/// polls leads to another tick.
pub proof fn quit_within_one_tick(machine: FrameLoop, polled: Option<InputEvent>)
    requires
        machine.phase is Tick,
    ensures
        asks_to_quit(polled) ==> action_of(next(machine, Report::TickCompleted(polled)))
            == Action::Release && !next(machine, Report::TickCompleted(polled)).state.running,
        !asks_to_quit(polled) ==> next(machine, Report::TickCompleted(polled)) == machine,
{
}

/// The state carried across ticks changes only when a tick polls the quit key.
pub proof fn state_changes_only_by_poll(machine: FrameLoop, report: Report)
    ensures
        next(machine, report).state != machine.state ==> machine.phase is Tick && (
        report matches Report::TickCompleted(polled) && asks_to_quit(polled)),
{
}

/// What holds of the machine and of the releases so far at every point of a
/// faithful run.
pub open spec fn accounted(reports: Seq<Report>) -> bool {
    let machine = run(reports);
    let acquired = times_asked(reports, Action::Acquire);
    let released = times_asked(reports, Action::Release);
    match machine.phase {
        Phase::Setup => reports.len() == 0 && acquired == 0 && released == 0
            && machine.state.running && machine.failure is None,
        Phase::Tick => reports.len() >= 1 && reports[0] is SetupSucceeded && acquired == 1
            && released == 0 && machine.state.running && machine.failure is None,
        Phase::Teardown => reports.len() >= 2 && reports[0] is SetupSucceeded && acquired == 1
            && released == 0 && (machine.failure is None || machine.failure == Some(
            LoopError::TickFailure,
        )) && (machine.failure is None <==> !machine.state.running),
        Phase::Exited => acquired == 1 && if reports[0] is SetupSucceeded {
            reports.len() >= 3 && released == 1 && machine.failure != Some(
                LoopError::SetupFailure,
            )
        } else {
            reports.len() == 1 && reports[0] is SetupFailed && released == 0 && machine.failure
                == Some(LoopError::SetupFailure)
        },
    }
}

/// A faithful run is accounted for at its end.
pub proof fn lemma_accounted(reports: Seq<Report>)
    requires
        faithful(reports),
    ensures
        accounted(reports),
    decreases reports.len(),
{
    if reports.len() > 0 {
        let before = reports.drop_last();
        lemma_accounted(before);
        if before.len() > 0 {
            assert(before[0] == reports[0]);
        }
    }
}

} // verus!
