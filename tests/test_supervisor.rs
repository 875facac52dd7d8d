use grobot::supervisor::{next, Cadence, Duty, Phase};

const CADENCE: Cadence = Cadence { warm_up: 2, per_cycle: 3 };

fn run(stops: &[bool]) -> Vec<Duty> {
    let mut phase = Phase::Start;
    let mut out = Vec::new();
    for &stop in stops {
        let (p, d) = next(CADENCE, phase, stop);
        phase = p;
        out.push(d);
    }
    out
}

#[test]
fn cycle_order_without_shutdown() {
    let duties = run(&[false; 13]);
    assert_eq!(
        duties,
        vec![
            Duty::SendSetup,
            Duty::Sample,
            Duty::Sample,
            Duty::Sample,
            Duty::Sample,
            Duty::Sample,
            Duty::SendEnvironment,
            Duty::Sleep,
            Duty::SendTime,
            Duty::Sample,
            Duty::Sample,
            Duty::Sample,
            Duty::SendEnvironment,
        ]
    );
}

#[test]
fn shutdown_after_a_sample_wait() {
    let duties = run(&[true, false, false, true, true, false]);
    assert_eq!(
        duties,
        vec![
            Duty::SendSetup,
            Duty::Sample,
            Duty::Sample,
            Duty::SendExit,
            Duty::Finish,
            Duty::Finish,
        ]
    );
}

#[test]
fn shutdown_during_sleep() {
    let mut stops = vec![false; 8];
    stops.push(true);
    let duties = run(&stops);
    assert_eq!(duties[7], Duty::Sleep);
    assert_eq!(duties[8], Duty::SendExit);
}

#[test]
fn empty_cadence_broadcasts_at_once() {
    let c = Cadence { warm_up: 0, per_cycle: 0 };
    let (p, d) = next(c, Phase::Start, false);
    assert_eq!(d, Duty::SendSetup);
    let (p, d) = next(c, p, false);
    assert_eq!(d, Duty::SendEnvironment);
    assert_eq!(p, Phase::Broadcast);
}
