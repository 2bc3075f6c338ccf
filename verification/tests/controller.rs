use activity_manager::activity::PlayercountError;
use activity_manager::controller::{
    parse_command, timeout_from_minutes, Action, ActivityState, Command, Controller, Event, Phase,
    Warning,
};
use activity_manager::error::ErrorKind;
use activity_manager::handler::Outcome;

const INTERVAL: u64 = 10;

fn line(text: &str) -> Event {
    Event::OperatorLine(String::from(text))
}

fn running(timeout: u64, now: u64) -> Controller {
    let mut controller = Controller::new(timeout);
    assert!(matches!(
        controller.step(Event::ConnectionEnded(Outcome::StartRequested), now),
        Action::StartServer
    ));
    controller
}

#[test]
fn commands_are_their_word_and_the_end_of_the_line() {
    assert_eq!(parse_command("stop\n"), Command::Stop);
    assert_eq!(parse_command("start\n"), Command::Start);
    assert_eq!(parse_command("spoof\n"), Command::Spoof);
    assert_eq!(parse_command("stop"), Command::Other);
    assert_eq!(parse_command(" stop\n"), Command::Other);
    assert_eq!(parse_command("Stop\n"), Command::Other);
    assert_eq!(parse_command("say hello\n"), Command::Other);
    assert_eq!(parse_command(""), Command::Other);
}

#[test]
fn timeout_is_given_in_minutes() {
    assert_eq!(timeout_from_minutes(5), 300);
    assert_eq!(timeout_from_minutes(0), 0);
    assert_eq!(timeout_from_minutes(u32::MAX), 60 * u32::MAX as u64);
}

#[test]
fn controller_starts_out_spoofing() {
    let controller = Controller::new(300);
    assert_eq!(controller.phase, Phase::Spoofing);
    assert_eq!(controller.inactivity_timeout, 300);
    assert_eq!(
        controller.activity,
        ActivityState { last_activity: 0, consecutive_null_responses: 0 }
    );
}

#[test]
fn activity_timeout_scenario() {
    // The server starts at 0; samples of 3, 0, 0, 0 players follow, one interval apart.
    let mut controller = running(2 * INTERVAL, 0);
    assert!(matches!(controller.step(Event::ActivityProbe(Ok(3)), INTERVAL), Action::Wait));
    assert_eq!(controller.activity.last_activity, INTERVAL);
    // Two intervals after the start, and one after the last player: no stop.
    assert!(matches!(controller.step(Event::ActivityProbe(Ok(0)), 2 * INTERVAL), Action::Wait));
    assert_eq!(controller.phase, Phase::Running);
    // Two intervals after the last player: stop.
    assert!(matches!(
        controller.step(Event::ActivityProbe(Ok(0)), 3 * INTERVAL),
        Action::StopServerAndListen
    ));
    assert_eq!(controller.phase, Phase::Spoofing);
    // The server is down: a fourth sample is no event any more.
    assert!(matches!(controller.step(Event::ActivityProbe(Ok(0)), 4 * INTERVAL), Action::Wait));
    assert_eq!(controller.phase, Phase::Spoofing);
}

#[test]
fn inactivity_counts_from_the_start_while_nobody_came() {
    let mut controller = running(2 * INTERVAL, 100);
    assert_eq!(controller.activity.last_activity, 100);
    assert!(matches!(controller.step(Event::ActivityProbe(Ok(0)), 110), Action::Wait));
    assert!(matches!(controller.step(Event::ActivityProbe(Ok(0)), 119), Action::Wait));
    assert!(matches!(
        controller.step(Event::ActivityProbe(Ok(0)), 120),
        Action::StopServerAndListen
    ));
}

#[test]
fn players_keep_the_server_running() {
    let mut controller = running(INTERVAL, 0);
    for tick in 1..100_u64 {
        assert!(matches!(
            controller.step(Event::ActivityProbe(Ok(1)), tick * INTERVAL),
            Action::Wait
        ));
        assert_eq!(controller.activity.last_activity, tick * INTERVAL);
        assert_eq!(controller.phase, Phase::Running);
    }
}

#[test]
fn clock_that_ran_backwards_stops_nothing() {
    let mut controller = running(INTERVAL, 50);
    assert!(matches!(controller.step(Event::ActivityProbe(Ok(0)), 40), Action::Wait));
    assert_eq!(controller.phase, Phase::Running);
    let mut at_once = running(0, 50);
    assert!(matches!(
        at_once.step(Event::ActivityProbe(Ok(0)), 40),
        Action::StopServerAndListen
    ));
}

#[test]
fn status_without_a_number_is_warned_of_after_three() {
    let mut controller = running(INTERVAL, 0);
    for counted in 1..=3_u32 {
        assert!(matches!(
            controller.step(Event::ActivityProbe(Err(PlayercountError::GotNull)), 1000),
            Action::Wait
        ));
        assert_eq!(controller.activity.consecutive_null_responses, counted);
    }
    for counted in 4..=6_u32 {
        assert!(matches!(
            controller.step(Event::ActivityProbe(Err(PlayercountError::GotNull)), 1000),
            Action::Warn(Warning::MissingPlayerCount)
        ));
        assert_eq!(controller.activity.consecutive_null_responses, counted);
    }
    assert_eq!(controller.phase, Phase::Running);
    assert_eq!(controller.activity.last_activity, 0);
}

#[test]
fn answer_with_a_number_starts_the_count_anew() {
    let missing = || Event::ActivityProbe(Err(PlayercountError::GotNull));
    for players in [0_u64, 5] {
        let mut controller = running(1000, 0);
        for _ in 0..3 {
            assert!(matches!(controller.step(missing(), 1), Action::Wait));
        }
        assert_eq!(controller.activity.consecutive_null_responses, 3);
        assert!(matches!(controller.step(Event::ActivityProbe(Ok(players)), 2), Action::Wait));
        assert_eq!(controller.activity.consecutive_null_responses, 0);
        // Three more are passed over again; the fourth in a row is warned of.
        for _ in 0..3 {
            assert!(matches!(controller.step(missing(), 3), Action::Wait));
        }
        assert!(matches!(
            controller.step(missing(), 3),
            Action::Warn(Warning::MissingPlayerCount)
        ));
    }
    // A probe that failed otherwise counts neither way.
    let mut controller = running(1000, 0);
    controller.step(missing(), 1);
    controller.step(Event::ActivityProbe(Err(PlayercountError::Inbound)), 1);
    controller.step(Event::ActivityProbe(Err(PlayercountError::IO(ErrorKind::Other))), 1);
    assert_eq!(controller.activity.consecutive_null_responses, 1);
    // The answer that stops the server ends the run as well.
    let mut controller = running(10, 0);
    controller.step(missing(), 1);
    assert!(matches!(
        controller.step(Event::ActivityProbe(Ok(0)), 10),
        Action::StopServerAndListen
    ));
    assert_eq!(controller.activity.consecutive_null_responses, 0);
}

#[test]
fn count_of_missing_numbers_does_not_overflow() {
    let mut controller = running(INTERVAL, 0);
    controller.activity.consecutive_null_responses = u32::MAX;
    assert!(matches!(
        controller.record_probe(Err(PlayercountError::GotNull), 5),
        Action::Warn(Warning::MissingPlayerCount)
    ));
    assert_eq!(controller.activity.consecutive_null_responses, u32::MAX);
}

#[test]
fn failed_probes_are_warned_of_and_stop_nothing() {
    let mut controller = running(INTERVAL, 0);
    assert!(matches!(
        controller.step(Event::ActivityProbe(Err(PlayercountError::Inbound)), 1000),
        Action::Warn(Warning::MalformedStatus)
    ));
    assert!(matches!(
        controller.step(
            Event::ActivityProbe(Err(PlayercountError::IO(ErrorKind::Other))),
            1000
        ),
        Action::Warn(Warning::ServerUnreachable)
    ));
    assert_eq!(controller.phase, Phase::Running);
    assert_eq!(
        controller.activity,
        ActivityState { last_activity: 0, consecutive_null_responses: 0 }
    );
}

#[test]
fn spoofing_ends_with_the_first_start_request() {
    let mut controller = Controller::new(300);
    assert!(matches!(controller.step(Event::ConnectionEnded(Outcome::NoStart), 1), Action::Wait));
    assert_eq!(controller.phase, Phase::Spoofing);
    assert!(matches!(
        controller.step(Event::ConnectionEnded(Outcome::StartRequested), 7),
        Action::StartServer
    ));
    assert_eq!(controller.phase, Phase::Running);
    assert_eq!(controller.activity.last_activity, 7);
    // Those that come after the first are heard no more.
    assert!(matches!(
        controller.step(Event::ConnectionEnded(Outcome::StartRequested), 8),
        Action::Wait
    ));
    assert_eq!(controller.activity.last_activity, 7);
}

#[test]
fn operator_commands_while_spoofing() {
    let mut controller = Controller::new(300);
    assert!(matches!(
        controller.step(line("say hello\n"), 1),
        Action::Warn(Warning::UnknownCommand)
    ));
    assert!(matches!(controller.step(line("spoof\n"), 1), Action::Warn(Warning::UnknownCommand)));
    assert_eq!(controller.phase, Phase::Spoofing);
    assert!(matches!(controller.step(line("start\n"), 2), Action::StartServer));
    assert_eq!(controller.phase, Phase::Running);
    assert_eq!(controller.activity.last_activity, 2);
    let mut controller = Controller::new(300);
    assert!(matches!(controller.step(line("stop\n"), 1), Action::Exit));
    assert_eq!(controller.phase, Phase::Stopped);
    assert!(matches!(controller.step(line("start\n"), 2), Action::Exit));
    assert_eq!(controller.phase, Phase::Stopped);
}

#[test]
fn server_events_while_spoofing_are_none() {
    let mut controller = Controller::new(0);
    assert!(matches!(controller.step(Event::ServerExited, 1), Action::Wait));
    assert!(matches!(controller.step(Event::ActivityProbe(Ok(0)), 1000), Action::Wait));
    assert_eq!(controller, Controller::new(0));
}

#[test]
fn operator_commands_while_running() {
    let mut controller = running(300, 0);
    match controller.step(line("say hello\n"), 1) {
        Action::Forward(forwarded) => assert_eq!(forwarded, "say hello\n"),
        other => panic!("decided {other:?}"),
    }
    match controller.step(line("stop"), 1) {
        Action::Forward(forwarded) => assert_eq!(forwarded, "stop"),
        other => panic!("decided {other:?}"),
    }
    assert!(matches!(controller.step(line("spoof\n"), 2), Action::StopServer));
    assert_eq!(controller.phase, Phase::Running);
    assert!(matches!(controller.step(line("start\n"), 2), Action::StopServer));
    assert_eq!(controller.phase, Phase::Running);
    assert!(matches!(controller.step(Event::ServerExited, 3), Action::Listen));
    assert_eq!(controller.phase, Phase::Spoofing);
    let mut controller = running(300, 0);
    assert!(matches!(controller.step(line("stop\n"), 2), Action::StopServerAndExit));
    assert_eq!(controller.phase, Phase::Stopped);
}

#[test]
fn phases_take_turns() {
    let mut controller = Controller::new(INTERVAL);
    for round in 0..5_u64 {
        let start = round * 1000;
        assert!(matches!(controller.step(line("start\n"), start), Action::StartServer));
        assert_eq!(controller.phase, Phase::Running);
        assert_eq!(controller.activity.consecutive_null_responses, 0);
        assert!(matches!(
            controller.step(Event::ActivityProbe(Err(PlayercountError::GotNull)), start + 5),
            Action::Wait
        ));
        if round % 2 == 0 {
            assert!(matches!(controller.step(Event::ServerExited, start + 6), Action::Listen));
        } else {
            assert!(matches!(
                controller.step(Event::ActivityProbe(Ok(0)), start + INTERVAL),
                Action::StopServerAndListen
            ));
        }
        assert_eq!(controller.phase, Phase::Spoofing);
    }
}
