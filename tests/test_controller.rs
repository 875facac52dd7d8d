use grobot::config::{Config, FanConfig, FanPower, LightConfig, ThresholdConfig};
use grobot::controller::{step, Actuator, Command, Message, TaskState};
use grobot::schedule::{Action, Event, TimeOfDay};

fn at(h: u32, m: u32) -> TimeOfDay {
    TimeOfDay::from_hms(h, m, 0).unwrap()
}

fn cfg() -> Config {
    Config::new(
        FanConfig {
            power: FanPower::try_from(750).unwrap(),
            schedule: vec![Event::new(at(8, 0), Action::On), Event::new(at(8, 10), Action::Off)],
        },
        LightConfig {
            schedule: vec![Event::new(at(6, 0), Action::On), Event::new(at(9, 0), Action::Off)],
        },
        ThresholdConfig::new(620, 400, 820, 800),
    )
}

#[test]
fn message_before_setup_is_violation() {
    let (s, c) = step(TaskState::AwaitingSetup, Actuator::Light, Message::Time(at(7, 0)));
    assert_eq!(c, Command::ProtocolViolation);
    assert!(matches!(s, TaskState::Terminated));
    let (_, c) = step(TaskState::AwaitingSetup, Actuator::Fan, Message::Exit);
    assert_eq!(c, Command::ProtocolViolation);
}

#[test]
fn decides_once_time_and_environment_are_known() {
    let (s, c) = step(TaskState::AwaitingSetup, Actuator::Light, Message::Setup(cfg()));
    assert_eq!(c, Command::Wait);
    let (s, c) = step(s, Actuator::Light, Message::Time(at(7, 0)));
    assert_eq!(c, Command::Wait);
    let (s, c) = step(s, Actuator::Light, Message::Environment(720, 600));
    assert_eq!(c, Command::SwitchOn);
    let (s, c) = step(s, Actuator::Light, Message::Time(at(12, 30)));
    assert_eq!(c, Command::SwitchOff);
    let (s, c) = step(s, Actuator::Light, Message::Environment(600, 600));
    assert_eq!(c, Command::SwitchOn);
    let (s, c) = step(s, Actuator::Light, Message::Setup(cfg()));
    assert_eq!(c, Command::Wait);
    assert!(s.config().is_some());
    let (s, c) = step(s, Actuator::Light, Message::Exit);
    assert_eq!(c, Command::Stop);
    let (_, c) = step(s, Actuator::Light, Message::Time(at(7, 0)));
    assert_eq!(c, Command::Stop);
}

#[test]
fn fan_task_uses_fan_rule() {
    let (s, _) = step(TaskState::AwaitingSetup, Actuator::Fan, Message::Setup(cfg()));
    let (s, c) = step(s, Actuator::Fan, Message::Environment(720, 600));
    assert_eq!(c, Command::Wait);
    let (s, c) = step(s, Actuator::Fan, Message::Time(at(8, 5)));
    assert_eq!(c, Command::SwitchOn);
    let (s, c) = step(s, Actuator::Fan, Message::Time(at(7, 0)));
    assert_eq!(c, Command::SwitchOff);
    let (_, c) = step(s, Actuator::Fan, Message::Environment(720, 850));
    assert_eq!(c, Command::SwitchOn);
    let s = TaskState::AwaitingSetup;
    assert!(s.config().is_none());
}
