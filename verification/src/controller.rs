//! The lifecycle controller: when the proxy listens in the server's place,
//! and when the real server runs.
//!
//! The controller is a machine of two phases that take turns. While spoofing
//! it waits for a reason to start the server: a login, or the operator's
//! word. While the server runs it watches the number of players, and stops
//! the server once nobody has been there for the length of the timeout. It
//! does no work itself: each event is answered with the action that is due,
//! which the program around it carries out.

use vstd::prelude::*;

use crate::activity::PlayercountError;
use crate::handler::Outcome;

verus! {

/// The two phases, and the end of the program.
#[derive(Debug, Clone, Copy, PartialEq, Eq, Structural)]
pub enum Phase {
    /// The proxy listens in the server's place.
    Spoofing,
    /// The real server runs.
    Running,
    /// The operator has stopped the program.
    Stopped,
}

/// What the operator's line asks for.
#[derive(Debug, Clone, Copy, PartialEq, Eq, Structural)]
pub enum Command {
    /// `stop`: end the program, and the server with it.
    Stop,
    /// `start`: start the server.
    Start,
    /// `spoof`: stop the server, and listen in its place.
    Spoof,
    /// Anything else: a line for the server.
    Other,
}

/// What is known of the players while the server runs.
#[derive(Debug, Clone, Copy, PartialEq, Eq, Structural)]
pub struct ActivityState {
    /// When a player was last seen, or when the server was started if none
    /// has been seen since: a number of seconds on the controller's clock.
    pub last_activity: u64,
    /// How often in a row the server's status has named no number of
    /// players: an answer that names one starts the count anew.
    pub consecutive_null_responses: u32,
}

/// How often the status may name no number of players before a warning is
/// due.
pub const NULL_RESPONSES_TOLERATED: u32 = 3;

/// What happened.
#[derive(Debug)]
pub enum Event {
    /// A connection to the proxy ended.
    ConnectionEnded(Outcome),
    /// The operator entered a line.
    OperatorLine(String),
    /// The real server's process ended.
    ServerExited,
    /// The real server was asked for its number of players.
    ActivityProbe(Result<u64, PlayercountError>),
}

/// What happened, as plain values.
pub enum EventView {
    ConnectionEnded(Outcome),
    OperatorLine(Seq<char>),
    ServerExited,
    ActivityProbe(Result<u64, PlayercountError>),
}

impl View for Event {
    type V = EventView;

    open spec fn view(&self) -> EventView {
        match self {
            Event::ConnectionEnded(outcome) => EventView::ConnectionEnded(*outcome),
            Event::OperatorLine(line) => EventView::OperatorLine(line@),
            Event::ServerExited => EventView::ServerExited,
            Event::ActivityProbe(result) => EventView::ActivityProbe(*result),
        }
    }
}

/// What there is to tell the operator.
#[derive(Debug, Clone, Copy, PartialEq, Eq, Structural)]
pub enum Warning {
    /// The line is no command that is known while spoofing.
    UnknownCommand,
    /// The server's status has named no number of players, more often than
    /// is tolerated.
    MissingPlayerCount,
    /// The server answered the query with something that is no status.
    MalformedStatus,
    /// The server could not be asked.
    ServerUnreachable,
}

/// What is to be done.
#[derive(Debug)]
pub enum Action {
    /// Nothing.
    Wait,
    /// Tell the operator.
    Warn(Warning),
    /// Stop listening, drop the connections, and start the real server.
    StartServer,
    /// Write the line to the server's input.
    Forward(String),
    /// Tell the server to stop, and go on watching it.
    StopServer,
    /// Listen in the server's place again: its process has ended.
    Listen,
    /// Tell the server to stop, wait for its process to end, and listen in
    /// its place again.
    StopServerAndListen,
    /// Tell the server to stop, wait for its process to end, and end the
    /// program.
    StopServerAndExit,
    /// End the program.
    Exit,
}

/// What is to be done, as plain values.
pub enum ActionView {
    Wait,
    Warn(Warning),
    StartServer,
    Forward(Seq<char>),
    StopServer,
    Listen,
    StopServerAndListen,
    StopServerAndExit,
    Exit,
}

impl View for Action {
    type V = ActionView;

    open spec fn view(&self) -> ActionView {
        match self {
            Action::Wait => ActionView::Wait,
            Action::Warn(warning) => ActionView::Warn(*warning),
            Action::StartServer => ActionView::StartServer,
            Action::Forward(line) => ActionView::Forward(line@),
            Action::StopServer => ActionView::StopServer,
            Action::Listen => ActionView::Listen,
            Action::StopServerAndListen => ActionView::StopServerAndListen,
            Action::StopServerAndExit => ActionView::StopServerAndExit,
            Action::Exit => ActionView::Exit,
        }
    }
}

/// The line that tells the server to stop.
pub const STOP_LINE: &'static str = "stop\n";

/// The line that starts the server.
pub const START_LINE: &'static str = "start\n";

/// The line that stops the server and lets the proxy listen.
pub const SPOOF_LINE: &'static str = "spoof\n";

/// What a line of the operator asks for. A command is its word and the end
/// of the line, and nothing else.
pub open spec fn command_of(line: Seq<char>) -> Command {
    if line == STOP_LINE@ {
        Command::Stop
    } else if line == START_LINE@ {
        Command::Start
    } else if line == SPOOF_LINE@ {
        Command::Spoof
    } else {
        Command::Other
    }
}

/// What a line of the operator asks for.
pub fn parse_command(line: &str) -> (command: Command)
    ensures
        command == command_of(line@),
{
    let line = line.to_owned();
    if line == STOP_LINE.to_owned() {
        Command::Stop
    } else if line == START_LINE.to_owned() {
        Command::Start
    } else if line == SPOOF_LINE.to_owned() {
        Command::Spoof
    } else {
        Command::Other
    }
}

/// The state of the controller.
#[derive(Debug, Clone, Copy, PartialEq, Eq, Structural)]
pub struct Controller {
    /// The phase that the controller is in.
    pub phase: Phase,
    /// What is known of the players. It counts while the server runs.
    pub activity: ActivityState,
    /// For how many seconds nobody must have been on the server before it
    /// is stopped.
    pub inactivity_timeout: u64,
}

/// The seconds that have passed since `earlier`, on a clock that does not run
/// backwards.
pub open spec fn elapsed(now: u64, earlier: u64) -> int {
    if now >= earlier {
        now - earlier
    } else {
        0
    }
}

/// The state in which the server has just been started.
pub open spec fn started(controller: Controller, now: u64) -> Controller {
    Controller {
        phase: Phase::Running,
        activity: ActivityState { last_activity: now, consecutive_null_responses: 0 },
        ..controller
    }
}

/// The controller after an event while spoofing, and the action that is due.
///
/// A connection that asked for the server starts it, and so does the
/// operator's `start`. The operator's `stop` ends the program. Any other line
/// is no command. What the server does is no event in this phase.
pub open spec fn spoofing_transition(controller: Controller, event: EventView, now: u64) -> (
    Controller,
    ActionView,
) {
    match event {
        EventView::ConnectionEnded(Outcome::StartRequested) => (
            started(controller, now),
            ActionView::StartServer,
        ),
        EventView::ConnectionEnded(Outcome::NoStart) => (controller, ActionView::Wait),
        EventView::OperatorLine(line) => match command_of(line) {
            Command::Stop => (Controller { phase: Phase::Stopped, ..controller }, ActionView::Exit),
            Command::Start => (started(controller, now), ActionView::StartServer),
            _ => (controller, ActionView::Warn(Warning::UnknownCommand)),
        },
        EventView::ServerExited => (controller, ActionView::Wait),
        EventView::ActivityProbe(_) => (controller, ActionView::Wait),
    }
}

/// What is known of the players after the server was asked for their number,
/// and the action that is due.
///
/// A number that is not zero makes now the time of the last activity. Zero
/// players, with the last activity at least as long ago as the timeout, stop
/// the server. Either number ends a run of answers without one. A status
/// without a number is counted, and warned of once more than three have been
/// counted in a row. A probe that failed otherwise is warned of, and counts
/// neither way. No failure stops anything.
pub open spec fn probe_transition(
    controller: Controller,
    probe: Result<u64, PlayercountError>,
    now: u64,
) -> (Controller, ActionView) {
    match probe {
        Ok(count) => {
            let answered = Controller {
                activity: ActivityState { consecutive_null_responses: 0, ..controller.activity },
                ..controller
            };
            if count != 0 {
                (
                    Controller {
                        activity: ActivityState { last_activity: now, ..answered.activity },
                        ..answered
                    },
                    ActionView::Wait,
                )
            } else if elapsed(now, controller.activity.last_activity)
                >= controller.inactivity_timeout {
                (Controller { phase: Phase::Spoofing, ..answered }, ActionView::StopServerAndListen)
            } else {
                (answered, ActionView::Wait)
            }
        },
        Err(PlayercountError::GotNull) => {
            let counted = if controller.activity.consecutive_null_responses < u32::MAX {
                (controller.activity.consecutive_null_responses + 1) as u32
            } else {
                u32::MAX
            };
            (
                Controller {
                    activity: ActivityState {
                        consecutive_null_responses: counted,
                        ..controller.activity
                    },
                    ..controller
                },
                if counted > NULL_RESPONSES_TOLERATED {
                    ActionView::Warn(Warning::MissingPlayerCount)
                } else {
                    ActionView::Wait
                },
            )
        },
        Err(PlayercountError::Inbound) => (controller, ActionView::Warn(Warning::MalformedStatus)),
        Err(PlayercountError::IO(_)) => (controller, ActionView::Warn(Warning::ServerUnreachable)),
    }
}

/// The controller after an event while the server runs, and the action that
/// is due.
///
/// When the server's process ends, the proxy listens again. The operator's
/// `stop` stops the server and ends the program; `spoof` and `start` stop the
/// server, which leads back to listening once its process has ended; any
/// other line is the server's. Connections are no events in this phase: the
/// first that asked for the server has been heard, the others come too late.
pub open spec fn running_transition(controller: Controller, event: EventView, now: u64) -> (
    Controller,
    ActionView,
) {
    match event {
        EventView::ServerExited => (
            Controller { phase: Phase::Spoofing, ..controller },
            ActionView::Listen,
        ),
        EventView::ActivityProbe(probe) => probe_transition(controller, probe, now),
        EventView::OperatorLine(line) => match command_of(line) {
            Command::Stop => (
                Controller { phase: Phase::Stopped, ..controller },
                ActionView::StopServerAndExit,
            ),
            Command::Spoof => (controller, ActionView::StopServer),
            Command::Start => (controller, ActionView::StopServer),
            Command::Other => (controller, ActionView::Forward(line)),
        },
        EventView::ConnectionEnded(_) => (controller, ActionView::Wait),
    }
}

/// The controller after an event, and the action that is due. Once the
/// program has been stopped, nothing moves it.
pub open spec fn transition(controller: Controller, event: EventView, now: u64) -> (
    Controller,
    ActionView,
) {
    match controller.phase {
        Phase::Spoofing => spoofing_transition(controller, event, now),
        Phase::Running => running_transition(controller, event, now),
        Phase::Stopped => (controller, ActionView::Exit),
    }
}

/// Inactivity counts from the last time a player was seen, not from the
/// start of the server.
///
/// While the server runs, a probe that finds players at the time `seen`
/// changes nothing but the time of the last activity and the count of
/// answers without a number. After it, probes that find nobody leave that
/// time alone, and the one at the time `later` stops the server if and only
/// if `later` is at least the timeout after `seen`.
pub proof fn lemma_inactivity_counts_from_last_activity(
    controller: Controller,
    players: u64,
    seen: u64,
    later: u64,
)
    requires
        controller.phase is Running,
        players != 0,
        seen <= later,
    ensures
        ({
            let (active, first) = probe_transition(controller, Ok(players), seen);
            let (idle, second) = probe_transition(active, Ok(0), later);
            &&& first is Wait
            &&& active.phase is Running
            &&& active.activity.last_activity == seen
            &&& active.activity.consecutive_null_responses == 0
            &&& active.inactivity_timeout == controller.inactivity_timeout
            &&& idle.activity == active.activity
            &&& second is StopServerAndListen <==> later - seen >= controller.inactivity_timeout
            &&& second is StopServerAndListen ==> idle.phase is Spoofing
            &&& !(second is StopServerAndListen) ==> second is Wait && idle == active
        }),
{
}

/// Answers without a number count in a row: an answer that names a number
/// starts the count anew, whatever it was. Of the answers without a number
/// that follow it, the first three are passed over, and the fourth is warned
/// of.
pub proof fn lemma_missing_counts_are_counted_in_a_row(
    controller: Controller,
    players: u64,
    now: u64,
)
    ensures
        ({
            let missing = Err::<u64, PlayercountError>(PlayercountError::GotNull);
            let (answered, _) = probe_transition(controller, Ok(players), now);
            let (first, first_action) = probe_transition(answered, missing, now);
            let (second, second_action) = probe_transition(first, missing, now);
            let (third, third_action) = probe_transition(second, missing, now);
            let (fourth, fourth_action) = probe_transition(third, missing, now);
            &&& answered.activity.consecutive_null_responses == 0
            &&& first.activity.consecutive_null_responses == 1
            &&& third.activity.consecutive_null_responses == 3
            &&& fourth.activity.consecutive_null_responses == 4
            &&& first_action is Wait && second_action is Wait && third_action is Wait
            &&& fourth_action == ActionView::Warn(Warning::MissingPlayerCount)
        }),
{
}

/// No failure of a probe stops the server: whatever went wrong, the
/// controller stays in its phase, and the action is to wait or to warn.
pub proof fn lemma_probe_failure_stops_nothing(
    controller: Controller,
    failure: PlayercountError,
    now: u64,
)
    ensures
        ({
            let (after, action) = probe_transition(controller, Err(failure), now);
            &&& after.phase == controller.phase
            &&& after.activity.last_activity == controller.activity.last_activity
            &&& action is Wait || action is Warn
        }),
{
}

/// The length of a timeout of so many minutes, in seconds.
pub fn timeout_from_minutes(minutes: u32) -> (seconds: u64)
    ensures
        seconds == minutes * 60,
{
    minutes as u64 * 60
}

impl Controller {
    /// A controller that starts out spoofing.
    pub fn new(inactivity_timeout: u64) -> (controller: Self)
        ensures
            controller == (Controller {
                phase: Phase::Spoofing,
                activity: ActivityState { last_activity: 0, consecutive_null_responses: 0 },
                inactivity_timeout,
            }),
    {
        Controller {
            phase: Phase::Spoofing,
            activity: ActivityState { last_activity: 0, consecutive_null_responses: 0 },
            inactivity_timeout,
        }
    }

    /// Takes note that the server has just been started.
    fn start(&mut self, now: u64)
        ensures
            *final(self) == started(*old(self), now),
    {
        self.phase = Phase::Running;
        self.activity = ActivityState { last_activity: now, consecutive_null_responses: 0 };
    }

    /// Takes note of what the server said of its players at the time `now`.
    pub fn record_probe(&mut self, probe: Result<u64, PlayercountError>, now: u64) -> (action:
        Action)
        ensures
            (*final(self), action@) == probe_transition(*old(self), probe, now),
    {
        match probe {
            Ok(count) => {
                self.activity.consecutive_null_responses = 0;
                if count != 0 {
                    self.activity.last_activity = now;
                    Action::Wait
                } else {
                    let idle = if now >= self.activity.last_activity {
                        now - self.activity.last_activity
                    } else {
                        0
                    };
                    if idle >= self.inactivity_timeout {
                        self.phase = Phase::Spoofing;
                        Action::StopServerAndListen
                    } else {
                        Action::Wait
                    }
                }
            },
            Err(PlayercountError::GotNull) => {
                if self.activity.consecutive_null_responses < u32::MAX {
                    self.activity.consecutive_null_responses =
                        self.activity.consecutive_null_responses + 1;
                }
                if self.activity.consecutive_null_responses > NULL_RESPONSES_TOLERATED {
                    Action::Warn(Warning::MissingPlayerCount)
                } else {
                    Action::Wait
                }
            },
            Err(PlayercountError::Inbound) => Action::Warn(Warning::MalformedStatus),
            Err(PlayercountError::IO(_)) => Action::Warn(Warning::ServerUnreachable),
        }
    }

    /// Takes note of an event that happened at the time `now`, and says what
    /// is to be done.
    pub fn step(&mut self, event: Event, now: u64) -> (action: Action)
        ensures
            (*final(self), action@) == transition(*old(self), event@, now),
    {
        match self.phase {
            Phase::Spoofing => match event {
                Event::ConnectionEnded(Outcome::StartRequested) => {
                    self.start(now);
                    Action::StartServer
                },
                Event::ConnectionEnded(Outcome::NoStart) => Action::Wait,
                Event::OperatorLine(line) => match parse_command(line.as_str()) {
                    Command::Stop => {
                        self.phase = Phase::Stopped;
                        Action::Exit
                    },
                    Command::Start => {
                        self.start(now);
                        Action::StartServer
                    },
                    _ => Action::Warn(Warning::UnknownCommand),
                },
                Event::ServerExited => Action::Wait,
                Event::ActivityProbe(_) => Action::Wait,
            },
            Phase::Running => match event {
                Event::ServerExited => {
                    self.phase = Phase::Spoofing;
                    Action::Listen
                },
                Event::ActivityProbe(probe) => self.record_probe(probe, now),
                Event::OperatorLine(line) => match parse_command(line.as_str()) {
                    Command::Stop => {
                        self.phase = Phase::Stopped;
                        Action::StopServerAndExit
                    },
                    Command::Spoof => Action::StopServer,
                    Command::Start => Action::StopServer,
                    Command::Other => Action::Forward(line),
                },
                Event::ConnectionEnded(_) => Action::Wait,
            },
            Phase::Stopped => Action::Exit,
        }
    }
}

} // verus!
