//! The protocol of an actuator task: the messages it receives on the control
//! bus, the state it keeps between them, and what it tells its hardware.
use vstd::prelude::*;

use crate::config::Config;
use crate::schedule::TimeOfDay;

verus! {

/// A message on the control bus.
#[derive(Clone, Debug)]
pub enum Message {
    /// The configuration every task runs with; always sent first.
    Setup(Config),
    /// The time of day now.
    Time(TimeOfDay),
    /// Temperature (tenths of a degree Fahrenheit) and humidity (tenths of a
    /// percent) now.
    Environment(i32, i32),
    /// Stop now.
    Exit,
}

/// Which output a task drives.
#[derive(Clone, Copy, Debug, PartialEq, Eq, Structural)]
pub enum Actuator {
    Light,
    Fan,
}

/// What a task does after a message.
#[derive(Clone, Copy, Debug, PartialEq, Eq, Structural)]
pub enum Command {
    /// Leave the output as it is and wait for the next message.
    Wait,
    /// Drive the output on.
    SwitchOn,
    /// Drive the output off.
    SwitchOff,
    /// Return: the bus asked to stop.
    Stop,
    /// Return with an error: a message came before the configuration.
    ProtocolViolation,
}

/// The state an actuator task keeps between messages.
#[derive(Debug)]
pub enum TaskState {
    /// No configuration has arrived yet.
    AwaitingSetup,
    /// Configured; the latest time and environment seen, if any.
    Running { config: Config, last_time: Option<TimeOfDay>, last_env: Option<(i32, i32)> },
    /// Stopped; every further message is ignored.
    Terminated,
}

/// The decision of `which` under `config` at time `t` in environment `env`.
pub open spec fn spec_decide(config: Config, which: Actuator, t: TimeOfDay, env: (i32, i32)) -> bool {
    match which {
        Actuator::Light => config.spec_light_on(t.spec_seconds(), env.0 as int, env.1 as int),
        Actuator::Fan => config.spec_fan_on(t.spec_seconds(), env.0 as int, env.1 as int),
    }
}

/// The command of a running task once both a time and an environment are
/// known; before that, it waits.
pub open spec fn spec_command(
    config: Config,
    which: Actuator,
    last_time: Option<TimeOfDay>,
    last_env: Option<(i32, i32)>,
) -> Command {
    match (last_time, last_env) {
        (Some(t), Some(e)) => if spec_decide(config, which, t, e) {
            Command::SwitchOn
        } else {
            Command::SwitchOff
        },
        _ => Command::Wait,
    }
}

/// One step of the task that drives `which`: the state and command after
/// `msg` arrives in `state`.
pub open spec fn spec_step(state: TaskState, which: Actuator, msg: Message) -> (TaskState, Command) {
    match state {
        TaskState::AwaitingSetup => match msg {
            Message::Setup(config) => (
                TaskState::Running { config, last_time: None, last_env: None },
                Command::Wait,
            ),
            _ => (TaskState::Terminated, Command::ProtocolViolation),
        },
        TaskState::Running { config, last_time, last_env } => match msg {
            Message::Time(t) => (
                TaskState::Running { config, last_time: Some(t), last_env },
                spec_command(config, which, Some(t), last_env),
            ),
            Message::Environment(temp, humidity) => (
                TaskState::Running { config, last_time, last_env: Some((temp, humidity)) },
                spec_command(config, which, last_time, Some((temp, humidity))),
            ),
            Message::Setup(_) => (TaskState::Running { config, last_time, last_env }, Command::Wait),
            Message::Exit => (TaskState::Terminated, Command::Stop),
        },
        TaskState::Terminated => (TaskState::Terminated, Command::Stop),
    }
}

fn command(
    config: &Config,
    which: Actuator,
    last_time: Option<TimeOfDay>,
    last_env: Option<(i32, i32)>,
) -> (r: Command)
    ensures
        r == spec_command(*config, which, last_time, last_env),
{
    match (last_time, last_env) {
        (Some(t), Some(e)) => {
            let on = match which {
                Actuator::Light => config.light_on(&t, e),
                Actuator::Fan => config.fan_on(&t, e),
            };
            if on {
                Command::SwitchOn
            } else {
                Command::SwitchOff
            }
        },
        _ => Command::Wait,
    }
}

/// Advances the task that drives `which` by one message.
pub fn step(state: TaskState, which: Actuator, msg: Message) -> (r: (TaskState, Command))
    ensures
        r == spec_step(state, which, msg),
{
    match state {
        TaskState::AwaitingSetup => match msg {
            Message::Setup(config) => (
                TaskState::Running { config, last_time: None, last_env: None },
                Command::Wait,
            ),
            _ => (TaskState::Terminated, Command::ProtocolViolation),
        },
        TaskState::Running { config, last_time, last_env } => match msg {
            Message::Time(t) => {
                let c = command(&config, which, Some(t), last_env);
                (TaskState::Running { config, last_time: Some(t), last_env }, c)
            },
            Message::Environment(temp, humidity) => {
                let c = command(&config, which, last_time, Some((temp, humidity)));
                (TaskState::Running { config, last_time, last_env: Some((temp, humidity)) }, c)
            },
            Message::Setup(_) => (TaskState::Running { config, last_time, last_env }, Command::Wait),
            Message::Exit => (TaskState::Terminated, Command::Stop),
        },
        TaskState::Terminated => (TaskState::Terminated, Command::Stop),
    }
}

impl TaskState {
    /// The configuration a running task holds.
    pub fn config(&self) -> (r: Option<&Config>)
        ensures
            match *self {
                TaskState::Running { config, .. } => r == Some(&config),
                _ => r.is_none(),
            },
    {
        match self {
            TaskState::Running { config, .. } => Some(config),
            _ => None,
        }
    }
}

/// Once stopped, a task stays stopped, whatever arrives.
pub proof fn lemma_terminated_is_final(which: Actuator, msg: Message)
    ensures
        spec_step(TaskState::Terminated, which, msg) == (TaskState::Terminated, Command::Stop),
{
}

/// A task waits for its configuration: `Setup` configures it, and any other
/// first message is a protocol violation.
pub proof fn lemma_setup_first(which: Actuator, msg: Message)
    ensures
        (msg is Setup) ==> spec_step(TaskState::AwaitingSetup, which, msg).1 == Command::Wait,
        !(msg is Setup) ==> spec_step(TaskState::AwaitingSetup, which, msg) == (
            TaskState::Terminated,
            Command::ProtocolViolation,
        ),
{
}

} // verus!
