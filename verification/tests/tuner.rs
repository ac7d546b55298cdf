use xtee::tuner::{Measurement, RelayOutput, TunerAction, TuningState};

fn m(preload_ok: bool, below_setpoint: bool, crossed: bool) -> Measurement {
    Measurement { preload_ok, below_setpoint, crossed }
}

#[test]
fn waits_for_preload() {
    let mut t = TuningState::new();
    assert_eq!(t.process_measurement(m(false, true, false)), (RelayOutput::Rest, vec![]));
    assert!(!t.is_preload_ok());
    assert_eq!(t.process_measurement(m(true, true, false)), (RelayOutput::Push, vec![TunerAction::Start]));
    assert!(t.is_preload_ok());
    // Once verified, the preload is not checked again.
    assert_eq!(t.process_measurement(m(false, false, false)), (RelayOutput::Pull, vec![TunerAction::RememberValue]));
}

#[test]
fn completes_after_four_counted_crossings() {
    let mut t = TuningState::new();
    t.process_measurement(m(true, true, false));
    assert_eq!(
        t.process_measurement(m(true, false, true)),
        (RelayOutput::Pull, vec![TunerAction::MarkCrossing, TunerAction::RememberValue])
    );
    for _ in 0..3 {
        let (out, acts) = t.process_measurement(m(true, true, true));
        assert_eq!(out, RelayOutput::Push);
        assert_eq!(acts, vec![TunerAction::MeasureHalfPeriod, TunerAction::MarkCrossing, TunerAction::RememberValue]);
        assert!(!t.is_tuning_complete());
    }
    assert_eq!(
        t.process_measurement(m(true, true, true)),
        (RelayOutput::Rest, vec![TunerAction::MeasureHalfPeriod, TunerAction::ComputeGain])
    );
    assert!(t.is_tuning_complete());
    assert_eq!(t.oscillation_count, 4);
    assert_eq!(t.process_measurement(m(true, true, true)), (RelayOutput::Rest, vec![]));
}

#[test]
fn reset_keeps_goal() {
    let mut t = TuningState::new();
    t.process_measurement(m(true, true, false));
    t.process_measurement(m(true, true, true));
    t.reset();
    assert_eq!(t, TuningState::new());
}
