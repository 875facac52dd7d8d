use grobot::config::{Config, ConfigError, FanConfig, FanPower, LightConfig, ThresholdConfig};
use grobot::schedule::{Action, Event, TimeOfDay};

const NOMINAL_TEMP: i32 = 720;
const NOMINAL_HUMIDITY: i32 = 600;

fn at(h: u32, m: u32) -> TimeOfDay {
    TimeOfDay::from_hms(h, m, 0).unwrap()
}

fn ev(h: u32, m: u32, action: Action) -> Event {
    Event::new(at(h, m), action)
}

fn config(light: Vec<Event>, fan: Vec<Event>, thresholds: ThresholdConfig) -> Config {
    Config::new(
        FanConfig { power: FanPower::try_from(750).unwrap(), schedule: fan },
        LightConfig { schedule: light },
        thresholds,
    )
}

fn default_config() -> Config {
    config(
        vec![
            ev(6, 0, Action::On),
            ev(9, 0, Action::Off),
            ev(19, 0, Action::On),
            ev(22, 0, Action::Off),
        ],
        vec![ev(8, 0, Action::On), ev(8, 10, Action::Off)],
        ThresholdConfig::new(620, 400, 820, 800),
    )
}

fn scenario_config() -> Config {
    config(
        vec![ev(6, 0, Action::On), ev(9, 0, Action::Off)],
        vec![ev(6, 0, Action::On), ev(6, 10, Action::Off)],
        ThresholdConfig::new(620, 400, 820, 800),
    )
}

#[test]
fn test_config_times() {
    let default_config = default_config();
    let local = TimeOfDay::from_hms(8, 1, 0).unwrap();
    assert!(
        default_config.fan_on(&local, (NOMINAL_TEMP, NOMINAL_HUMIDITY)),
        "Fan expected on at 8am"
    );
    assert!(
        default_config.light_on(&local, (NOMINAL_TEMP, NOMINAL_HUMIDITY)),
        "light expected on at 8am"
    );
    let local = TimeOfDay::from_hms(12, 30, 0).unwrap();
    assert!(
        default_config.fan_off(&local, (NOMINAL_TEMP, NOMINAL_HUMIDITY)),
        "fan expected off at 1230pm"
    );
    assert!(
        default_config.light_off(&local, (NOMINAL_TEMP, NOMINAL_HUMIDITY)),
        "light expected off at 1230pm"
    );
}

#[test]
fn window_bounds_are_half_open() {
    let c = scenario_config();
    let env = (NOMINAL_TEMP, NOMINAL_HUMIDITY);
    assert!(c.light_on(&at(6, 0), env));
    assert!(c.light_on(&TimeOfDay::from_hms(8, 59, 59).unwrap(), env));
    assert!(!c.light_on(&at(9, 0), env));
    assert!(!c.light_on(&TimeOfDay::from_hms(5, 59, 59).unwrap(), env));
}

#[test]
fn off_is_negation_of_on() {
    let c = default_config();
    for h in 0..24 {
        for &env in &[(720, 600), (900, 600), (500, 900), (720, 300), (830, 850)] {
            let t = at(h, 5);
            assert_eq!(c.light_off(&t, env), !c.light_on(&t, env));
            assert_eq!(c.fan_off(&t, env), !c.fan_on(&t, env));
        }
    }
}

#[test]
fn off_override_dominates() {
    let c = default_config();
    // Too hot: the light stays off inside its window, even with humid air.
    assert!(!c.light_on(&at(7, 0), (900, 900)));
    // Too dry or too cold: the fan stays off inside its window, even when hot.
    assert!(!c.fan_on(&at(8, 5), (900, 300)));
    assert!(!c.fan_on(&at(8, 5), (500, 900)));
}

#[test]
fn scenario_light_follows_schedule() {
    let c = scenario_config();
    assert!(c.light_on(&at(7, 0), (720, 600)));
    assert!(!c.light_on(&at(12, 30), (720, 600)));
}

#[test]
fn scenario_heat_turns_light_off() {
    let c = scenario_config();
    assert!(!c.light_on(&at(12, 30), (900, 600)));
    assert!(!c.light_on(&at(7, 0), (900, 600)));
}

#[test]
fn scenario_humidity_turns_fan_on() {
    let c = scenario_config();
    assert!(c.fan_on(&at(12, 30), (720, 850)));
    assert!(!c.fan_on(&at(12, 30), (720, 600)));
}

#[test]
fn light_warms_cold_air() {
    let c = scenario_config();
    assert!(c.light_on(&at(12, 30), (600, 600)));
}

#[test]
fn setup_rejects_schedule_starting_with_off() {
    let mut c = config(
        vec![ev(10, 0, Action::Off), ev(12, 0, Action::On)],
        vec![ev(6, 0, Action::On), ev(6, 10, Action::Off)],
        ThresholdConfig::new(620, 400, 820, 800),
    );
    assert_eq!(c.setup(), Err(ConfigError::StartsWithOff));
}

#[test]
fn setup_sorts_and_accepts() {
    let mut c = config(
        vec![ev(22, 0, Action::Off), ev(6, 0, Action::On), ev(19, 0, Action::On), ev(9, 0, Action::Off)],
        vec![ev(8, 10, Action::Off), ev(8, 0, Action::On)],
        ThresholdConfig::new(620, 400, 820, 800),
    );
    assert_eq!(c.setup(), Ok(()));
    let times: Vec<u32> = c.light.schedule.iter().map(|e| e.time.seconds()).collect();
    assert_eq!(times, vec![21600, 32400, 68400, 79200]);
    assert_eq!(c.fan.schedule[0].action, Action::On);
    assert_eq!(c.fan.schedule[1].time.seconds(), 29400);
}

#[test]
fn setup_rejects_empty_and_unpaired() {
    let mut c = config(vec![], vec![ev(6, 0, Action::On), ev(7, 0, Action::Off)], ThresholdConfig::new(620, 400, 820, 800));
    assert_eq!(c.setup(), Err(ConfigError::EmptySchedule));
    let mut c = config(
        vec![ev(6, 0, Action::On), ev(7, 0, Action::Off)],
        vec![ev(6, 0, Action::On)],
        ThresholdConfig::new(620, 400, 820, 800),
    );
    assert_eq!(c.setup(), Err(ConfigError::UnpairedEvent));
}

#[test]
fn fan_power_range() {
    let p = FanPower::try_from(750).unwrap();
    assert_eq!(p.as_duty_cycle(), 750);
    assert_eq!(FanPower::try_from(0).unwrap().as_duty_cycle(), 0);
    assert_eq!(FanPower::try_from(1000).unwrap().as_duty_cycle(), 1000);
    assert_eq!(FanPower::try_from(1001).err(), Some(ConfigError::FanPowerOutOfRange));
    assert_eq!(FanPower::try_from(-1).err(), Some(ConfigError::FanPowerOutOfRange));
    let c = default_config();
    assert_eq!(c.fan_power().as_duty_cycle(), 750);
}

#[test]
fn parse_event_times() {
    assert_eq!(Event::parse_time("08:30").unwrap().seconds(), 30600);
    assert_eq!(Event::parse_time("00:00").unwrap().seconds(), 0);
    assert_eq!(Event::parse_time("23:59").unwrap().seconds(), 86340);
    assert_eq!(Event::parse_time("25:00"), Err(ConfigError::InvalidTime));
    assert_eq!(Event::parse_time("noon"), Err(ConfigError::InvalidTime));
}

#[test]
fn time_of_day_range() {
    assert_eq!(TimeOfDay::from_hms(23, 59, 59).unwrap().seconds(), 86399);
    assert!(TimeOfDay::from_hms(24, 0, 0).is_none());
    assert!(TimeOfDay::from_hms(1, 60, 0).is_none());
    assert!(TimeOfDay::from_hms(1, 0, 60).is_none());
}

#[test]
fn setup_rejects_pairs_out_of_parity() {
    let mut c = config(
        vec![ev(6, 0, Action::On), ev(7, 0, Action::On), ev(8, 0, Action::Off), ev(9, 0, Action::Off)],
        vec![ev(6, 0, Action::On), ev(6, 10, Action::Off)],
        ThresholdConfig::new(620, 400, 820, 800),
    );
    assert_eq!(c.setup(), Err(ConfigError::MisorderedPair));
    let mut c = config(
        vec![ev(6, 0, Action::On), ev(9, 0, Action::Off)],
        vec![ev(6, 0, Action::On), ev(6, 10, Action::Off), ev(7, 0, Action::Off), ev(8, 0, Action::On)],
        ThresholdConfig::new(620, 400, 820, 800),
    );
    assert_eq!(c.setup(), Err(ConfigError::MisorderedPair));
}
