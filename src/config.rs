//! The decision engine: schedules and thresholds for the light and the fan,
//! checked once when loaded, and the on/off rule for each actuator.
use vstd::prelude::*;

use crate::schedule::{
    lemma_sort_sorted, pair_on_off, pairs_on_off, schedule_on, schedule_valid, sort_by_time, sort_schedule,
    spec_schedule_on, Action, Event, TimeOfDay,
};

verus! {

/// Why a configuration was refused.
#[derive(Clone, Copy, Debug, PartialEq, Eq, Structural)]
pub enum ConfigError {
    /// A schedule holds no event.
    EmptySchedule,
    /// A schedule's earliest event is not `On`.
    StartsWithOff,
    /// A schedule holds an event with no partner to close its window.
    UnpairedEvent,
    /// A schedule holds a pair that is not `On` then `Off`.
    MisorderedPair,
    /// The fan power lies outside 0 to 100 percent.
    FanPowerOutOfRange,
    /// A time of day is not written `HH:MM`.
    InvalidTime,
}

/// The largest fan power, in tenths of a percent.
pub const FAN_POWER_MAX: i64 = 1000;

/// A fan power between 0 and 100 percent, held in tenths of a percent.
#[derive(Clone, Copy, Debug, PartialEq, Eq)]
pub struct FanPower {
    tenths: u16,
}

impl FanPower {
    #[verifier::type_invariant]
    spec fn inv(self) -> bool {
        self.tenths <= 1000
    }

    /// The power in tenths of a percent, which is also the PWM duty cycle in
    /// thousandths.
    pub closed spec fn spec_tenths(self) -> nat {
        self.tenths as nat
    }

    /// A fan power of `tenths` tenths of a percent; refused outside 0 to 1000.
    pub fn try_from(tenths: i64) -> (r: Result<FanPower, ConfigError>)
        ensures
            (0 <= tenths <= FAN_POWER_MAX) <==> r.is_ok(),
            r.is_ok() ==> r.unwrap().spec_tenths() == tenths,
            r.is_err() ==> r == Err::<FanPower, ConfigError>(ConfigError::FanPowerOutOfRange),
    {
        if 0 <= tenths && tenths <= FAN_POWER_MAX {
            Ok(FanPower { tenths: tenths as u16 })
        } else {
            Err(ConfigError::FanPowerOutOfRange)
        }
    }

    /// The duty cycle to drive the fan with, in thousandths (0 to 1000).
    pub fn as_duty_cycle(&self) -> (r: u16)
        ensures
            r as nat == self.spec_tenths(),
            r <= 1000,
    {
        proof {
            use_type_invariant(self);
        }
        self.tenths
    }
}

/// Temperature bounds, in tenths of a degree Fahrenheit, and humidity bounds,
/// in tenths of a percent.
#[derive(Clone, Copy, Debug, PartialEq, Eq, Structural)]
pub struct ThresholdConfig {
    pub min_temp: i32,
    pub min_humidity: i32,
    pub max_temp: i32,
    pub max_humidity: i32,
}

impl ThresholdConfig {
    pub fn new(min_temp: i32, min_humidity: i32, max_temp: i32, max_humidity: i32) -> (r:
        ThresholdConfig)
        ensures
            r == (ThresholdConfig { min_temp, min_humidity, max_temp, max_humidity }),
    {
        ThresholdConfig { min_temp, min_humidity, max_temp, max_humidity }
    }
}

/// The fan's power and schedule.
#[derive(Clone, Debug)]
pub struct FanConfig {
    pub power: FanPower,
    pub schedule: Vec<Event>,
}

/// The light's schedule.
#[derive(Clone, Debug)]
pub struct LightConfig {
    pub schedule: Vec<Event>,
}

/// Everything the decision engine needs: both schedules, the fan power and
/// the thresholds they share.
#[derive(Clone, Debug)]
pub struct Config {
    pub fan: FanConfig,
    pub light: LightConfig,
    pub thresholds: ThresholdConfig,
}

/// The light is driven on by the environment: the air is too humid (the lamp
/// dries it) or too cold (the lamp warms it).
pub open spec fn light_on_environment(th: ThresholdConfig, temp: int, humidity: int) -> bool {
    humidity > th.max_humidity || temp < th.min_temp
}

/// The light is held off by the environment: the air is too hot.
pub open spec fn light_off_environment(th: ThresholdConfig, temp: int, humidity: int) -> bool {
    temp > th.max_temp
}

/// The fan is driven on by the environment: the air is too humid or too hot.
pub open spec fn fan_on_environment(th: ThresholdConfig, temp: int, humidity: int) -> bool {
    humidity > th.max_humidity || temp > th.max_temp
}

/// The fan is held off by the environment: the air is too dry or too cold.
pub open spec fn fan_off_environment(th: ThresholdConfig, temp: int, humidity: int) -> bool {
    humidity < th.min_humidity || temp < th.min_temp
}

/// The first rule that `s` breaks among those checked at load, if any.
pub open spec fn schedule_error(s: Seq<Event>) -> Option<ConfigError> {
    if s.len() == 0 {
        Some(ConfigError::EmptySchedule)
    } else if s[0].action != Action::On {
        Some(ConfigError::StartsWithOff)
    } else if s.len() % 2 != 0 {
        Some(ConfigError::UnpairedEvent)
    } else if !pairs_on_off(s) {
        Some(ConfigError::MisorderedPair)
    } else {
        None
    }
}

/// The outcome of loading a configuration whose ordered schedules are
/// `light` and `fan`: the light's schedule is checked first.
pub open spec fn setup_result(light: Seq<Event>, fan: Seq<Event>) -> Result<(), ConfigError> {
    match schedule_error(light) {
        Some(e) => Err(e),
        None => match schedule_error(fan) {
            Some(e) => Err(e),
            None => Ok(()),
        },
    }
}

fn check_schedule(s: &Vec<Event>) -> (r: Result<(), ConfigError>)
    ensures
        r == match schedule_error(s@) {
            Some(e) => Err::<(), ConfigError>(e),
            None => Ok(()),
        },
{
    if s.len() == 0 {
        Err(ConfigError::EmptySchedule)
    } else if s[0].action != Action::On {
        Err(ConfigError::StartsWithOff)
    } else if s.len() % 2 != 0 {
        Err(ConfigError::UnpairedEvent)
    } else {
        let mut k: usize = 0;
        let ghost mut p: int = 0;
        while s.len() - k >= 2
            invariant
                k <= s.len(),
                s.len() % 2 == 0,
                s.len() > 0,
                s@[0].action == Action::On,
                0 <= p,
                k == 2 * p,
                forall|q: int| 0 <= q < p ==> #[trigger] pair_on_off(s@, q),
            decreases s.len() - k,
        {
            if s[k].action != Action::On || s[k + 1].action != Action::Off {
                assert(!pair_on_off(s@, p));
                assert(!pairs_on_off(s@));
                return Err(ConfigError::MisorderedPair);
            }
            k = k + 2;
            proof {
                p = p + 1;
            }
        }
        assert forall|q: int| 0 <= q && 2 * q + 1 < s@.len() implies #[trigger] pair_on_off(s@, q) by {
            assert(q < p);
        }
        Ok(())
    }
}

impl Config {
    pub fn new(fan: FanConfig, light: LightConfig, thresholds: ThresholdConfig) -> (r: Config)
        ensures
            r.fan.power == fan.power,
            r.fan.schedule@ == fan.schedule@,
            r.light.schedule@ == light.schedule@,
            r.thresholds == thresholds,
    {
        Config { fan, light, thresholds }
    }

    /// The light's decision at time of day `t` (seconds) with temperature
    /// `temp` and humidity `humidity`.
    pub open spec fn spec_light_on(&self, t: nat, temp: int, humidity: int) -> bool {
        (spec_schedule_on(self.light.schedule@, t) || light_on_environment(
            self.thresholds,
            temp,
            humidity,
        )) && !light_off_environment(self.thresholds, temp, humidity)
    }

    /// The fan's decision at time of day `t` (seconds) with temperature
    /// `temp` and humidity `humidity`.
    pub open spec fn spec_fan_on(&self, t: nat, temp: int, humidity: int) -> bool {
        (spec_schedule_on(self.fan.schedule@, t) || fan_on_environment(
            self.thresholds,
            temp,
            humidity,
        )) && !fan_off_environment(self.thresholds, temp, humidity)
    }

    /// Whether the light should be on at `time`, with `environment` holding
    /// the temperature (tenths of a degree Fahrenheit) and the humidity
    /// (tenths of a percent).
    pub fn light_on(&self, time: &TimeOfDay, environment: (i32, i32)) -> (r: bool)
        ensures
            r == self.spec_light_on(time.spec_seconds(), environment.0 as int, environment.1 as int),
    {
        let (temp, humidity) = environment;
        let on_schedule = schedule_on(&self.light.schedule, *time);
        let on_environment = humidity > self.thresholds.max_humidity || temp
            < self.thresholds.min_temp;
        let off_environment = temp > self.thresholds.max_temp;
        (on_schedule || on_environment) && !off_environment
    }

    /// Exactly the negation of `light_on`.
    pub fn light_off(&self, time: &TimeOfDay, environment: (i32, i32)) -> (r: bool)
        ensures
            r == !self.spec_light_on(
                time.spec_seconds(),
                environment.0 as int,
                environment.1 as int,
            ),
    {
        !self.light_on(time, environment)
    }

    /// Whether the fan should be on at `time`, with `environment` holding the
    /// temperature (tenths of a degree Fahrenheit) and the humidity (tenths
    /// of a percent).
    pub fn fan_on(&self, time: &TimeOfDay, environment: (i32, i32)) -> (r: bool)
        ensures
            r == self.spec_fan_on(time.spec_seconds(), environment.0 as int, environment.1 as int),
    {
        let (temp, humidity) = environment;
        let on_schedule = schedule_on(&self.fan.schedule, *time);
        let on_environment = humidity > self.thresholds.max_humidity || temp
            > self.thresholds.max_temp;
        let off_environment = humidity < self.thresholds.min_humidity || temp
            < self.thresholds.min_temp;
        (on_schedule || on_environment) && !off_environment
    }

    /// Exactly the negation of `fan_on`.
    pub fn fan_off(&self, time: &TimeOfDay, environment: (i32, i32)) -> (r: bool)
        ensures
            r == !self.spec_fan_on(
                time.spec_seconds(),
                environment.0 as int,
                environment.1 as int,
            ),
    {
        !self.fan_on(time, environment)
    }

    /// The power the fan is driven with whenever it is on.
    pub fn fan_power(&self) -> (r: FanPower)
        ensures
            r == self.fan.power,
    {
        self.fan.power
    }

    /// Orders both schedules by time of day, then checks each (the light's
    /// first): it must not be empty, must open with `On`, must pair every
    /// event, and every pair must be `On` then `Off`.
    pub fn setup(&mut self) -> (r: Result<(), ConfigError>)
        ensures
            final(self).light.schedule@ == sort_by_time(old(self).light.schedule@),
            final(self).fan.schedule@ == sort_by_time(old(self).fan.schedule@),
            final(self).fan.power == old(self).fan.power,
            final(self).thresholds == old(self).thresholds,
            r == setup_result(final(self).light.schedule@, final(self).fan.schedule@),
            r.is_ok() ==> schedule_valid(final(self).light.schedule@) && schedule_valid(
                final(self).fan.schedule@,
            ),
    {
        sort_schedule(&mut self.light.schedule);
        sort_schedule(&mut self.fan.schedule);
        proof {
            lemma_sort_sorted(old(self).light.schedule@);
            lemma_sort_sorted(old(self).fan.schedule@);
        }
        check_schedule(&self.light.schedule)?;
        check_schedule(&self.fan.schedule)?;
        Ok(())
    }
}

/// Whenever the environment holds the light off, the light is off, whatever
/// its schedule and whatever else the environment says; likewise for the fan.
pub proof fn lemma_off_override_dominates(cfg: Config, t: nat, temp: int, humidity: int)
    ensures
        light_off_environment(cfg.thresholds, temp, humidity) ==> !cfg.spec_light_on(
            t,
            temp,
            humidity,
        ),
        fan_off_environment(cfg.thresholds, temp, humidity) ==> !cfg.spec_fan_on(
            t,
            temp,
            humidity,
        ),
{
}

} // verus!
