use grobot::environment::{trimmed_mean_fahrenheit_of, trimmed_mean_of, Environment, Sample};

fn s(temperature: i16, humidity: i16) -> Sample {
    Sample { temperature, humidity }
}

#[test]
fn repeated_sample_gives_its_value() {
    for n in 1..=8 {
        let mut env = Environment::with_readings(8);
        for _ in 0..n {
            env.add_reading(s(215, 555));
        }
        assert_eq!(env.len(), n);
        assert_eq!(env.humidity(), Some(555));
        // 21.5 C is 70.7 F.
        assert_eq!(env.temp(), Some(707));
    }
}

#[test]
fn invalid_samples_are_dropped() {
    let mut env = Environment::with_readings(8);
    env.add_reading(s(200, 500));
    env.add_reading(s(200, -10));
    assert_eq!(env.len(), 1);
    env.add_reading(s(200, 1010));
    assert_eq!(env.len(), 1);
    env.add_reading(s(200, 0));
    env.add_reading(s(200, 1000));
    assert_eq!(env.len(), 3);
}

#[test]
fn oldest_sample_is_evicted() {
    let mut env = Environment::with_readings(4);
    for i in 0..5 {
        env.add_reading(s(100 + i, 500));
    }
    assert_eq!(env.len(), 4);
    assert_eq!(env.capacity(), 4);
    let temps: Vec<i16> = env.samples().iter().map(|x| x.temperature).collect();
    assert_eq!(temps, vec![101, 102, 103, 104]);
}

#[test]
fn default_history_holds_eight() {
    let env = Environment::default();
    assert_eq!(env.capacity(), 8);
    assert_eq!(env.len(), 0);
    assert_eq!(env.temp(), None);
    assert_eq!(env.humidity(), None);
}

#[test]
fn outlier_is_trimmed() {
    assert_eq!(trimmed_mean_of(&vec![200, 200, 200, 200, 1000]), Some(200));
    // mean 20, sd 10: 10, 20 and 30 are kept, the mean of all is returned.
    assert_eq!(trimmed_mean_of(&vec![10, 20, 30]), Some(20));
    assert_eq!(trimmed_mean_of(&vec![]), None);
    assert_eq!(trimmed_mean_of(&vec![-7]), Some(-7));
}

#[test]
fn fahrenheit_conversion() {
    assert_eq!(trimmed_mean_fahrenheit_of(&vec![100]), Some(500));
    assert_eq!(trimmed_mean_fahrenheit_of(&vec![-5]), Some(311));
    assert_eq!(trimmed_mean_fahrenheit_of(&vec![-1]), Some(318));
    assert_eq!(trimmed_mean_fahrenheit_of(&vec![0, 1]), Some(320));
    assert_eq!(trimmed_mean_fahrenheit_of(&vec![]), None);
}

#[test]
fn aggregator_trims_noisy_history() {
    let mut env = Environment::with_readings(8);
    for &(t, h) in &[(200, 500), (200, 500), (200, 500), (200, 500), (600, 990)] {
        env.add_reading(s(t, h));
    }
    assert_eq!(env.humidity(), Some(500));
    assert_eq!(env.temp(), Some(680));
}

#[test]
fn new_matches_default() {
    let mut env = Environment::new();
    assert_eq!(env.capacity(), 8);
    for i in 0..10 {
        env.add_reading(s(i, 400));
    }
    assert_eq!(env.len(), 8);
    assert_eq!(env.samples()[0].temperature, 2);
}
